//! LaTeX text through rusttex's `ContentBuilder`.
use vstd::prelude::*;
use vstd::string::*;
use crate::order::views;

verus! {

#[verifier::external_type_specification]
#[verifier::external_body]
pub struct ExContentBuilder(rusttex::ContentBuilder);

/// The text a `ContentBuilder` has accumulated.
pub uninterp spec fn builder_text(b: rusttex::ContentBuilder) -> Seq<char>;

/// `\name{arg}` followed by a newline.
pub open spec fn command(name: Seq<char>, arg: Seq<char>) -> Seq<char> {
    "\\"@ + name + "{"@ + arg + "}\n"@
}

/// The options joined by commas.
pub open spec fn joined(options: Seq<Seq<char>>) -> Seq<char>
    decreases options.len(),
{
    if options.len() == 0 {
        Seq::empty()
    } else if options.len() == 1 {
        options[0]
    } else {
        joined(options.drop_last()) + ","@ + options.last()
    }
}

/// The document class declaration, with its options in brackets if any.
pub open spec fn class_line(class: Seq<char>, options: Seq<Seq<char>>) -> Seq<char> {
    if options.len() == 0 {
        command("documentclass"@, class)
    } else {
        "\\documentclass["@ + joined(options) + "]{"@ + class + "}\n"@
    }
}

/// Relies on rusttex's ContentBuilder::new: the content starts empty.
pub assume_specification[ rusttex::ContentBuilder::new ]() -> (b: rusttex::ContentBuilder)
    ensures
        builder_text(b) == Seq::<char>::empty(),
;

/// Relies on rusttex's ContentBuilder::add_literal: the text is appended as is.
pub assume_specification[ rusttex::ContentBuilder::add_literal ](
    b: &mut rusttex::ContentBuilder,
    text: &str,
)
    ensures
        builder_text(*final(b)) == builder_text(*old(b)) + text@,
;

/// Relies on rusttex's ContentBuilder::begin_document.
pub assume_specification[ rusttex::ContentBuilder::begin_document ](
    b: &mut rusttex::ContentBuilder,
)
    ensures
        builder_text(*final(b)) == builder_text(*old(b)) + "\\begin{document}\n"@,
;

/// Relies on rusttex's ContentBuilder::end_document.
pub assume_specification[ rusttex::ContentBuilder::end_document ](b: &mut rusttex::ContentBuilder)
    ensures
        builder_text(*final(b)) == builder_text(*old(b)) + "\\end{document}\n"@,
;

/// Relies on rusttex's ContentBuilder::maketitle.
pub assume_specification[ rusttex::ContentBuilder::maketitle ](b: &mut rusttex::ContentBuilder)
    ensures
        builder_text(*final(b)) == builder_text(*old(b)) + "\\maketitle\n"@,
;

/// Relies on rusttex's ContentBuilder::build_document: it hands out the content.
pub assume_specification[ rusttex::ContentBuilder::build_document ](
    b: &rusttex::ContentBuilder,
) -> (r: &str)
    ensures
        r@ == builder_text(*b),
;

/// Relies on rusttex's ContentBuilder::set_document_class with
/// `DocumentClass::Custom(class)`, whose name is `class` itself: appends
/// `\documentclass{class}`, or `\documentclass[o1,o2,...]{class}` when
/// there are options.
#[verifier::external_body]
fn set_document_class(b: &mut rusttex::ContentBuilder, class: &str, options: &Vec<String>)
    ensures
        builder_text(*final(b)) == builder_text(*old(b)) + class_line(class@, views(options@)),
{
    let mut opts: Vec<Box<dyn ToString>> = Vec::new();
    for o in options {
        opts.push(Box::new(o.clone()));
    }
    b.set_document_class(rusttex::DocumentClass::Custom(class.to_string()), opts)
}

/// Relies on rusttex's ContentBuilder::use_package with no options:
/// appends `\usepackage{package}`.
#[verifier::external_body]
fn use_package(b: &mut rusttex::ContentBuilder, package: &str)
    ensures
        builder_text(*final(b)) == builder_text(*old(b)) + command("usepackage"@, package@),
{
    b.use_package(package, Vec::new())
}

/// Relies on rusttex's ContentBuilder::input: appends `\input{file}`.
#[verifier::external_body]
fn input(b: &mut rusttex::ContentBuilder, file: &str)
    ensures
        builder_text(*final(b)) == builder_text(*old(b)) + command("input"@, file@),
{
    b.input(file)
}

/// Relies on rusttex's ContentBuilder::title: appends `\title{text}`.
#[verifier::external_body]
fn title(b: &mut rusttex::ContentBuilder, text: &str)
    ensures
        builder_text(*final(b)) == builder_text(*old(b)) + command("title"@, text@),
{
    b.title(text)
}

/// Relies on rusttex's ContentBuilder::author: appends `\author{text}`.
#[verifier::external_body]
fn author(b: &mut rusttex::ContentBuilder, text: &str)
    ensures
        builder_text(*final(b)) == builder_text(*old(b)) + command("author"@, text@),
{
    b.author(text)
}

/// Relies on rusttex's ContentBuilder::section: appends `\section{text}`.
#[verifier::external_body]
fn section(b: &mut rusttex::ContentBuilder, text: &str)
    ensures
        builder_text(*final(b)) == builder_text(*old(b)) + command("section"@, text@),
{
    b.section(text)
}

/// File name of the per-section subfile.
pub const SUBFILE_NAME: &'static str = "problems.tex";

/// File name of the shared preamble.
pub const PREAMBLE_NAME: &'static str = "preamble.tex";

/// File name of the root document.
pub const MAIN_NAME: &'static str = "main.tex";

pub const GRAPHICS_PATH: &'static str = "\\graphicspath{{figs/}}\n";

/// The subfile of a section titled `title`.
pub open spec fn subfile_text(title: Seq<char>) -> Seq<char> {
    class_line("subfiles"@, seq!["../../main"@]) + GRAPHICS_PATH@ + "\\begin{document}\n"@
        + command("section"@, title) + "\\kant[1-2]"@ + "\\end{document}\n"@
}

/// The opening of the root document, up to the table of contents.
pub open spec fn header_text(title: Seq<char>, author: Seq<char>) -> Seq<char> {
    "%! TeX program = lualatex\n"@ + class_line("book"@, Seq::empty()) + command(
        "usepackage"@,
        "subfiles"@,
    ) + command("input"@, PREAMBLE_NAME@) + GRAPHICS_PATH@ + command("title"@, title) + command(
        "author"@,
        author,
    ) + "\\date{\\today}\n"@ + "\\begin{document}\n"@ + "\\maketitle\n"@
        + "\\tableofcontents\n"@
}

/// The subfile written into a section folder: it belongs to the root
/// document `../../main`, two folders up,
/// and holds the section heading `sec_title` and placeholder text.
pub fn create_subfile_tex(sec_title: &str) -> (r: String)
    ensures
        r@ == subfile_text(sec_title@),
{
    let mut b = rusttex::ContentBuilder::new();
    let mut options: Vec<String> = Vec::new();
    options.push(String::from_str("../../main"));
    set_document_class(&mut b, "subfiles", &options);
    assert(views(options@) =~= seq!["../../main"@]);
    b.add_literal(GRAPHICS_PATH);
    b.begin_document();
    section(&mut b, sec_title);
    b.add_literal("\\kant[1-2]");
    b.end_document();
    let r = String::from_str(b.build_document());
    assert(r@ =~= subfile_text(sec_title@));
    r
}

/// A builder holding the opening of the root document.
pub fn main_header(title_book: &str, author_sol: &str) -> (b: rusttex::ContentBuilder)
    ensures
        builder_text(b) == header_text(title_book@, author_sol@),
{
    let mut b = rusttex::ContentBuilder::new();
    b.add_literal("%! TeX program = lualatex\n");
    set_document_class(&mut b, "book", &Vec::new());
    assert(views(Seq::<String>::empty()) =~= Seq::<Seq<char>>::empty());
    use_package(&mut b, "subfiles");
    input(&mut b, PREAMBLE_NAME);
    b.add_literal(GRAPHICS_PATH);
    title(&mut b, title_book);
    author(&mut b, author_sol);
    b.add_literal("\\date{\\today}\n");
    b.begin_document();
    b.maketitle();
    b.add_literal("\\tableofcontents\n");
    assert(builder_text(b) =~= header_text(title_book@, author_sol@));
    b
}

} // verus!
