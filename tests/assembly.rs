use textract::{
    clean_name, create_main_tex, create_subfile_tex, AssemblyError, BookPlan, ChapterEntry,
    NameNormalizer, Policy,
};

fn entry(name: &str, sections: &[&str]) -> ChapterEntry {
    ChapterEntry {
        name: name.to_string(),
        sections: sections.iter().map(|s| s.to_string()).collect(),
    }
}

const HEADER: &str = "%! TeX program = lualatex\n\\documentclass{book}\n\\usepackage{subfiles}\n\\input{preamble.tex}\n\\graphicspath{{figs/}}\n\\title{Mechanics}\n\\author{Ann}\n\\date{\\today}\n\\begin{document}\n\\maketitle\n\\tableofcontents\n";

fn plan(chapters: Vec<ChapterEntry>, policy: Policy) -> BookPlan {
    let norm = NameNormalizer::new();
    match create_main_tex(&norm, "Mechanics", "Ann", &chapters, &policy) {
        Ok(p) => p,
        Err(_) => panic!("unexpected collision"),
    }
}

#[test]
fn two_numbered_chapters_with_two_sections_each() {
    let p = plan(
        vec![
            entry("02_Dynamics", &["2_Problems", "1_Intro"]),
            entry("01_Kinematics", &["1_Intro", "2_Problems"]),
        ],
        Policy::Numbered,
    );
    let expected = format!(
        "{}\\chapter{{Kinematics}}\n\\subfile{{\"Kinematics/1_Intro/problems.tex\"}}\n\\subfile{{\"Kinematics/2_Problems/problems.tex\"}}\n\\chapter{{Dynamics}}\n\\subfile{{\"Dynamics/1_Intro/problems.tex\"}}\n\\subfile{{\"Dynamics/2_Problems/problems.tex\"}}\n\\end{{document}}\n",
        HEADER
    );
    assert_eq!(p.main, expected);
    assert_eq!(p.chapters.len(), 2);
    assert_eq!(p.chapters[0].raw, "01_Kinematics");
    assert_eq!(p.chapters[0].folder, "Kinematics");
    assert_eq!(p.chapters[1].folder, "Dynamics");
    assert!(p.chapters[0].needs_rename());
    assert!(p.chapters[1].needs_rename());
    let subfiles = p.subfiles();
    assert_eq!(subfiles.len(), 4);
    let paths: Vec<&str> = subfiles.iter().map(|s| s.path.as_str()).collect();
    assert_eq!(
        paths,
        vec![
            "Kinematics/1_Intro/problems.tex",
            "Kinematics/2_Problems/problems.tex",
            "Dynamics/1_Intro/problems.tex",
            "Dynamics/2_Problems/problems.tex",
        ]
    );
    assert!(subfiles[0].content.contains("\\section{Intro}\n"));
    assert!(subfiles[1].content.contains("\\section{Problems}\n"));
    assert!(subfiles[2].content.contains("\\section{Intro}\n"));
    assert!(subfiles[3].content.contains("\\section{Problems}\n"));
    // section folders keep their names
    assert_eq!(p.chapters[0].sections[0].folder, "1_Intro");
    assert_eq!(p.chapters[0].sections[1].folder, "2_Problems");
}

#[test]
fn unnumbered_chapter_is_skipped() {
    let p = plan(
        vec![entry("Notes", &["1_Intro"]), entry("01_Waves", &["1_Intro"])],
        Policy::Numbered,
    );
    assert_eq!(p.chapters.len(), 1);
    assert_eq!(p.chapters[0].folder, "Waves");
    assert!(!p.main.contains("Notes"));
    assert_eq!(p.subfiles().len(), 1);
}

#[test]
fn renamed_chapter_is_not_renamed_again() {
    let p = plan(vec![entry("Kinematics", &["1_Intro", "2_Problems"])], Policy::Numbered);
    assert_eq!(p.chapters.len(), 0);
    assert!(p.chapters.iter().all(|c| !c.needs_rename()));
    assert_eq!(p.subfiles().len(), 0);
    assert_eq!(p.main, format!("{}\\end{{document}}\n", HEADER));
}

#[test]
fn canonical_tree_gives_the_same_document_twice() {
    let tree = || vec![entry("Kinematics", &["1_Intro"]), entry("Dynamics", &[])];
    let a = plan(tree(), Policy::Numbered);
    let b = plan(tree(), Policy::Numbered);
    assert_eq!(a.main, b.main);
    assert_eq!(a.chapters.len(), 0);
}

#[test]
fn only_digit_underscore_prefixes_count_as_numbered() {
    let p = plan(
        vec![
            entry("01Kinematics", &[]),
            entry("_01_Optics", &[]),
            entry("7_Heat", &[]),
            entry("Waves", &[]),
        ],
        Policy::Numbered,
    );
    let raws: Vec<&str> = p.chapters.iter().map(|c| c.raw.as_str()).collect();
    assert_eq!(raws, vec!["7_Heat"]);
}

#[test]
fn chapters_follow_raw_name_order() {
    let p = plan(
        vec![
            entry("10_Optics", &[]),
            entry("02_Waves", &[]),
            entry("01_Zeta", &[]),
        ],
        Policy::Numbered,
    );
    let raws: Vec<&str> = p.chapters.iter().map(|c| c.raw.as_str()).collect();
    assert_eq!(raws, vec!["01_Zeta", "02_Waves", "10_Optics"]);
}

#[test]
fn appendices_come_last() {
    let p = plan(
        vec![
            entry("01_Appendix_Tables", &[]),
            entry("03_Waves", &[]),
            entry("02_Optics", &[]),
            entry("00_Appendix_Units", &[]),
        ],
        Policy::AppendixLast { marker: "Appendix".to_string() },
    );
    let titles: Vec<&str> = p.chapters.iter().map(|c| c.title.as_str()).collect();
    assert_eq!(titles, vec!["Optics", "Waves", "Appendix Units", "Appendix Tables"]);
}

#[test]
fn chapters_that_collide_after_renaming_are_refused() {
    let norm = NameNormalizer::new();
    let chapters = vec![entry("01_Waves", &[]), entry("02_Waves", &[])];
    match create_main_tex(&norm, "T", "A", &chapters, &Policy::Numbered) {
        Err(AssemblyError::DuplicateChapter { name }) => assert_eq!(name, "Waves"),
        Ok(_) => panic!("collision not detected"),
    }
    let chapters = vec![entry("Waves", &[]), entry("7_Waves", &[])];
    assert!(create_main_tex(&norm, "T", "A", &chapters, &Policy::Numbered).is_err());
}

#[test]
fn underscores_in_chapter_titles_become_spaces() {
    let p = plan(vec![entry("04_Rigid_Body", &["3_Moment_of_Inertia"])], Policy::Numbered);
    assert_eq!(p.chapters[0].folder, "Rigid_Body");
    assert_eq!(p.chapters[0].title, "Rigid Body");
    assert_eq!(p.chapters[0].sections[0].title, "Moment of Inertia");
    assert_eq!(
        p.chapters[0].sections[0].subfile,
        "Rigid_Body/3_Moment_of_Inertia/problems.tex"
    );
    assert!(p.main.contains("\\chapter{Rigid Body}\n"));
}

#[test]
fn subfile_text_is_exact() {
    assert_eq!(
        create_subfile_tex("Intro"),
        "\\documentclass[../../main]{subfiles}\n\\graphicspath{{figs/}}\n\\begin{document}\n\\section{Intro}\n\\kant[1-2]\\end{document}\n"
    );
}

#[test]
fn clean_name_strips_prefix_and_underscores() {
    let norm = NameNormalizer::new();
    assert_eq!(clean_name(&norm, "03_Energy"), "Energy");
    assert_eq!(clean_name(&norm, "01_Rigid_Body"), "Rigid Body");
    assert_eq!(clean_name(&norm, "Notes"), "Notes");
    assert_eq!(clean_name(&norm, "12abc"), "12abc");
    assert_eq!(clean_name(&norm, "1_2_X"), "2 X");
    assert_eq!(clean_name(&norm, "_1_X"), " 1 X");
    assert_eq!(clean_name(&norm, ""), "");
}
