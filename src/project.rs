//! Parameters of a book project, and the shared preamble.
use vstd::prelude::*;
use vstd::string::*;
use crate::names::{default_title, derived_title, book_stem, without_suffix, BOOK_SUFFIX};

verus! {

/// The preamble every book root receives.
pub const PREAMBLE: &'static str = r#"%%%%%%%%%%%%%%%%%%%%%%%%%%%%%%%%%%%%%%%%%%%%%%%%%%%%%%%%%%%%%
%                                                           %
%           Common Preamble: Math & Science Documents       %
%                                                           %
%  Purpose: Reusable set of packages for papers involving   %
%           mathematics, physics, or technical content.     %
%                                                           %
%  Usage: \input{preamble.tex}  (from main .tex file)       %
%                                                           %
%  Author: Marcos LÃ³pez Merino                              %
%  Date:    2025-06-11                                      %
%                                                           %
%%%%%%%%%%%%%%%%%%%%%%%%%%%%%%%%%%%%%%%%%%%%%%%%%%%%%%%%%%%%%

% ============= Encoding and Language ============ %
\usepackage[utf8]{inputenc} % UTF-8 encoding
\usepackage[T1]{fontenc} % Output font encoding
\usepackage[english]{babel} % Language support

% ============= Math Packages ============== %
\usepackage{amsmath, amssymb, amsfonts}
\usepackage{mathtools} % For advanced math typesetting
\usepackage{bm} % For bold math symbols
\usepackage{derivative} % For derivatives
\usepackage{lualatex-math} % For LuaLaTeX math support
\usepackage{empheq} % For enhanced equation environments
\usepackage{nicematrix} % For nice matrices
\usepackage{simples-matrices} % Fast matrix typesetting

% ============= Physics Packages ============ %
% \usepackage{phfqit} % BraKet notation for QM and Quantum Information Theory
% \usepackage{siunitx} % For SI units and scientific notation

% ============= Graphics and Figures ============ %
\usepackage{graphicx} % For including images
\usepackage{subcaption} % For subfigures

% ============= Fonts and Typography ============ %
\usepackage{microtype} % Better typography
\usepackage{csquotes} % Context-sensitive quotes
\usepackage{fontspec} % Font selection for XeLaTeX and LuaLaTeX

% ============= Miscellaneous ============ %
\usepackage{enumitem} % Customizable lists
\usepackage{xcolor} % Color support
\usepackage{kantlipsum} % Dummy text for testing
\usepackage{datetime2} % Date and time formatting
\setlength{\jot}{10pt} % Space between lines in equations
\allowdisplaybreaks % Allow page breaks in equations

% ============= Hyperlinks and References ============ %
\usepackage{hyperref} % Hyperlinks in the document
\usepackage{zref-clever} % Clever references"#;

/// The text of the shared preamble file.
pub fn create_preamble() -> (r: String)
    ensures
        r@ == PREAMBLE@,
{
    String::from_str(PREAMBLE)
}

/// Turns a name into a book title.
pub trait TitleGenerator {
    /// The title generated from `source`.
    spec fn generated(&self, source: Seq<char>) -> Seq<char>;

    fn generate(&self, source: &str) -> (r: String)
        ensures
            r@ == self.generated(source@),
    ;
}

/// The usual title generator: `_` and `-` become spaces.
pub struct DefaultTitle;

impl TitleGenerator for DefaultTitle {
    open spec fn generated(&self, source: Seq<char>) -> Seq<char> {
        derived_title(source)
    }

    fn generate(&self, source: &str) -> (r: String) {
        default_title(source)
    }
}

/// Where the title of a book comes from.
pub enum BookTitle<G> {
    /// A title given as is.
    Static(String),
    /// A title produced by `generator`.
    Dynamic { generator: G, source: String },
}

impl<G: TitleGenerator> BookTitle<G> {
    pub open spec fn spec_resolve(self) -> Seq<char> {
        match self {
            BookTitle::Static(t) => t@,
            BookTitle::Dynamic { generator, source } => generator.generated(source@),
        }
    }

    /// The title this describes: the generator applied once to `source`.
    pub fn resolve(&self) -> (r: String)
        ensures
            r@ == self.spec_resolve(),
    {
        match self {
            BookTitle::Static(t) => t.clone(),
            BookTitle::Dynamic { generator, source } => generator.generate(source.as_str()),
        }
    }

    /// The title of the book in the folder `folder`: a static title as is,
    /// otherwise the generator applied to the folder's name without the
    /// book marker.
    pub fn title_for(&self, folder: &str) -> (r: String)
        ensures
            self matches BookTitle::Static(t) ==> r@ == t@,
            self matches BookTitle::Dynamic { generator, .. } ==> r@ == generator.generated(
                without_suffix(folder@, BOOK_SUFFIX@),
            ),
    {
        match self {
            BookTitle::Static(t) => t.clone(),
            BookTitle::Dynamic { generator, .. } => {
                let stem = book_stem(folder);
                generator.generate(stem.as_str())
            },
        }
    }
}

/// The settings of one run over a folder of books.
pub struct ProjectParameters<G> {
    pub base_dir: String,
    pub book_title: BookTitle<G>,
    pub author_solns: String,
    pub chs_names: Vec<String>,
    pub problems_name: String,
}

impl Default for ProjectParameters<DefaultTitle> {
    fn default() -> (r: ProjectParameters<DefaultTitle>)
        ensures
            r.base_dir@ == "."@,
            r.book_title matches BookTitle::Dynamic { source, .. } && source@ == ""@,
            r.author_solns@ == "Chris P. Bacon"@,
            r.chs_names@.len() == 2,
            r.chs_names@[0]@ == "Part"@,
            r.chs_names@[1]@ == "Appendices"@,
            r.problems_name@ == "Problems"@,
    {
        let mut chs_names: Vec<String> = Vec::new();
        chs_names.push(String::from_str("Part"));
        chs_names.push(String::from_str("Appendices"));
        ProjectParameters {
            base_dir: String::from_str("."),
            book_title: BookTitle::Dynamic { generator: DefaultTitle, source: String::from_str("") },
            author_solns: String::from_str("Chris P. Bacon"),
            chs_names,
            problems_name: String::from_str("Problems"),
        }
    }
}

} // verus!
