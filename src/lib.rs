//! Assembly of a multi-chapter LaTeX book project from a folder tree of
//! chapters and sections.

pub mod names;
pub mod order;
pub mod latex;
pub mod assembly;
pub mod project;
pub mod laws;

pub use names::{
    book_stem, clean_name, default_title, is_book_folder, is_numbered_chapter, NameNormalizer,
    BOOK_SUFFIX,
};
pub use order::{name_less, sort_names};
pub use latex::{create_subfile_tex, MAIN_NAME, PREAMBLE_NAME, SUBFILE_NAME};
pub use assembly::{
    create_main_tex, AssemblyError, BookPlan, ChapterEntry, ChapterPlan, Policy, SectionPlan,
    Subfile,
};
pub use project::{
    create_preamble, BookTitle, DefaultTitle, ProjectParameters, TitleGenerator, PREAMBLE,
};
pub mod layout;
pub use layout::{
    chapter_dir_name, chapter_tex, dir_name_from_lower, group_by_section, problems_tex, Problem,
    SectionGroup,
};
