use textract::{
    chapter_dir_name, chapter_tex, dir_name_from_lower, group_by_section, problems_tex, Problem,
};

fn problem(section: &str, title: &str, start: u32, end: u32, image: Option<&str>) -> Problem {
    Problem {
        section: section.to_string(),
        title: title.to_string(),
        page_start: start,
        page_end: end,
        content: format!("text of {}", title),
        image_path: image.map(|s| s.to_string()),
    }
}

#[test]
fn groups_follow_section_order_and_keep_problem_order() {
    let ps = vec![
        problem("Waves", "Pendulum", 1, 2, None),
        problem("Heat", "Kettle", 3, 4, None),
        problem("Waves", "Echo", 5, 6, None),
        problem("Heat", "Radiator", 7, 8, None),
        problem("Optics", "Prism", 9, 9, None),
    ];
    let groups = group_by_section(&ps);
    let names: Vec<&str> = groups.iter().map(|g| g.section.as_str()).collect();
    assert_eq!(names, vec!["Heat", "Optics", "Waves"]);
    assert_eq!(groups[0].members, vec![1, 3]);
    assert_eq!(groups[1].members, vec![4]);
    assert_eq!(groups[2].members, vec![0, 2]);
    assert!(group_by_section(&Vec::new()).is_empty());
}

#[test]
fn problems_file_text_is_exact() {
    let ps = vec![
        problem("Waves", "Pendulum", 12, 130, Some("figs/a.png")),
        problem("Waves", "Kettle", 0, 7, None),
    ];
    let text = problems_tex(&ps, &vec![0, 1]);
    let expected = "% Archivo generado automáticamente con los problemas\n\
\\section*{Pendulum}\nSección: Waves\nPáginas: 12-130\nContenido:\ntext of Pendulum\n\n\\includegraphics{figs/a.png}\n\n---\n\n\
\\section*{Kettle}\nSección: Waves\nPáginas: 0-7\nContenido:\ntext of Kettle\n\n\n---\n\n";
    assert_eq!(text, expected);
    assert_eq!(
        problems_tex(&ps, &vec![]),
        "% Archivo generado automáticamente con los problemas\n"
    );
}

#[test]
fn page_numbers_are_decimal() {
    let ps = vec![problem("S", "T", 4294967295, 10, None)];
    assert!(problems_tex(&ps, &vec![0]).contains("Páginas: 4294967295-10\n"));
}

#[test]
fn chapter_folder_names() {
    assert_eq!(chapter_dir_name("Part One"), "part_one");
    assert_eq!(chapter_dir_name("APPENDIX A b"), "appendix_a_b");
    assert_eq!(dir_name_from_lower("two words"), "two_words");
    assert_eq!(chapter_tex("Part One"), "% Archivo Part One chapter.tex\n");
}
