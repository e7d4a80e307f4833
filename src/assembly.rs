//! Planning of a book: which chapters are renamed, which subfiles are
//! written, and the text of the root document.
use vstd::prelude::*;
use vstd::seq_lib::*;
use vstd::string::*;
use crate::names::{
    NameNormalizer, replace_char, has_numbered_prefix, strip_numbered_prefix, clean_title, clean_name,
};
use crate::order::{name_le, sorted_names, views, sort_names, lemma_name_le_transitive};
use crate::latex::{
    builder_text, command, header_text, main_header, create_subfile_tex, subfile_text, SUBFILE_NAME,
};

verus! {

/// A chapter folder as found in the book root: its name and the names of
/// the section folders inside it, in any order.
pub struct ChapterEntry {
    pub name: String,
    pub sections: Vec<String>,
}

/// How chapters are ordered in the root document.
pub enum Policy {
    /// By raw folder name.
    Numbered,
    /// By raw folder name, but chapters whose title contains `marker` come
    /// after all the others.
    AppendixLast { marker: String },
}

pub enum AssemblyError {
    /// Two chapter folders would carry the same name once renamed.
    DuplicateChapter { name: String },
}

/// Relies on str::contains with a string pattern: whether `pattern` occurs
/// in `s` as a run of consecutive characters.
#[verifier::external_body]
fn contains_str(s: &str, pattern: &str) -> (r: bool)
    ensures
        r == occurs_in(pattern@, s@),
{
    s.contains(pattern)
}

pub open spec fn occurs_in(pattern: Seq<char>, s: Seq<char>) -> bool {
    exists|i: int|
        0 <= i && i + pattern.len() <= s.len() && #[trigger] s.subrange(i, i + pattern.len())
            == pattern
}

/// Names of the chapter entries.
pub open spec fn entry_names(cs: Seq<ChapterEntry>) -> Seq<Seq<char>> {
    cs.map_values(|c: ChapterEntry| c.name@)
}

/// Some two chapter folders would carry the same name once renamed.
pub open spec fn has_collision(cs: Seq<ChapterEntry>) -> bool {
    exists|i: int, j: int|
        0 <= i < j < cs.len() && strip_numbered_prefix(#[trigger] cs[i].name@)
            == strip_numbered_prefix(#[trigger] cs[j].name@)
}

/// Names of the numbered chapters, in listing order.
pub open spec fn numbered_names(cs: Seq<ChapterEntry>) -> Seq<Seq<char>>
    decreases cs.len(),
{
    if cs.len() == 0 {
        Seq::empty()
    } else {
        let r = numbered_names(cs.drop_last());
        if has_numbered_prefix(cs.last().name@) {
            r.push(cs.last().name@)
        } else {
            r
        }
    }
}

/// The chapter with raw name `raw` counts as an appendix.
pub open spec fn is_appendix(marker: Seq<char>, raw: Seq<char>) -> bool {
    occurs_in(marker, clean_title(raw))
}

/// `raws` lists chapters in the order the policy asks for.
pub open spec fn in_policy_order(raws: Seq<Seq<char>>, policy: Policy) -> bool {
    match policy {
        Policy::Numbered => sorted_names(raws),
        Policy::AppendixLast { marker } => appendix_order(raws, marker@),
    }
}

/// Chapters without the marker come first, then those with it, each group
/// by raw folder name.
pub open spec fn appendix_order(raws: Seq<Seq<char>>, marker: Seq<char>) -> bool {
    forall|i: int, j: int|
        0 <= i < j < raws.len() ==> {
            &&& (is_appendix(marker, #[trigger] raws[i]) ==> is_appendix(
                marker,
                #[trigger] raws[j],
            ))
            &&& (is_appendix(marker, raws[i]) == is_appendix(marker, raws[j]) ==> name_le(
                raws[i],
                raws[j],
            ))
        }
}

/// Finds two chapters that would carry the same name once renamed.
fn find_collision(norm: &NameNormalizer, chapters: &Vec<ChapterEntry>) -> (r: Option<String>)
    ensures
        r is None <==> !has_collision(chapters@),
        r matches Some(n) ==> exists|i: int, j: int|
            0 <= i < j < chapters@.len() && strip_numbered_prefix(chapters@[i].name@) == n@
                && strip_numbered_prefix(chapters@[j].name@) == n@,
{
    let mut stripped: Vec<String> = Vec::new();
    let mut i: usize = 0;
    while i < chapters.len()
        invariant
            i <= chapters@.len(),
            stripped@.len() == i,
            forall|k: int| 0 <= k < i ==> #[trigger] stripped@[k]@ == strip_numbered_prefix(
                chapters@[k].name@,
            ),
        decreases chapters@.len() - i,
    {
        stripped.push(norm.strip_prefix(chapters[i].name.as_str()));
        i = i + 1;
    }
    let mut j: usize = 0;
    while j < stripped.len()
        invariant
            j <= stripped@.len(),
            stripped@.len() == chapters@.len(),
            forall|k: int| 0 <= k < stripped@.len() ==> #[trigger] stripped@[k]@
                == strip_numbered_prefix(chapters@[k].name@),
            forall|a: int, b: int|
                0 <= a < b < stripped@.len() && a < j ==> stripped@[a]@ != stripped@[b]@,
        decreases stripped@.len() - j,
    {
        let mut k: usize = j + 1;
        while k < stripped.len()
            invariant
                j < k <= stripped@.len(),
                j < stripped@.len(),
                stripped@.len() == chapters@.len(),
                forall|q: int| 0 <= q < stripped@.len() ==> #[trigger] stripped@[q]@
                    == strip_numbered_prefix(chapters@[q].name@),
                forall|b: int| j < b < k ==> stripped@[j as int]@ != #[trigger] stripped@[b]@,
            decreases stripped@.len() - k,
        {
            if stripped[j] == stripped[k] {
                let r = stripped[j].clone();
                assert(strip_numbered_prefix(chapters@[j as int].name@) == r@);
                assert(strip_numbered_prefix(chapters@[k as int].name@) == r@);
                return Some(r);
            }
            k = k + 1;
        }
        j = j + 1;
    }
    proof {
        assert forall|a: int, b: int| 0 <= a < b < chapters@.len() implies strip_numbered_prefix(
            #[trigger] chapters@[a].name@,
        ) != strip_numbered_prefix(#[trigger] chapters@[b].name@) by {
            assert(stripped@[a]@ != stripped@[b]@);
        }
    }
    None
}

/// Names of the numbered chapters, in listing order.
fn collect_numbered(norm: &NameNormalizer, chapters: &Vec<ChapterEntry>) -> (r: Vec<String>)
    ensures
        views(r@) == numbered_names(chapters@),
{
    let mut r: Vec<String> = Vec::new();
    let mut i: usize = 0;
    while i < chapters.len()
        invariant
            i <= chapters@.len(),
            views(r@) == numbered_names(chapters@.subrange(0, i as int)),
        decreases chapters@.len() - i,
    {
        proof {
            let s = chapters@.subrange(0, i as int + 1);
            assert(s.drop_last() =~= chapters@.subrange(0, i as int));
        }
        if norm.is_numbered(chapters[i].name.as_str()) {
            let ghost before = r@;
            r.push(chapters[i].name.clone());
            assert(views(r@) =~= views(before).push(chapters@[i as int].name@));
        }
        i = i + 1;
    }
    assert(chapters@.subrange(0, chapters@.len() as int) =~= chapters@);
    r
}

/// Sorted names rearranged so that appendices come last, each group in
/// its sorted order.
fn appendices_last(norm: &NameNormalizer, sorted: Vec<String>, marker: &str) -> (r: Vec<String>)
    requires
        sorted_names(views(sorted@)),
    ensures
        views(r@).to_multiset() == views(sorted@).to_multiset(),
        appendix_order(views(r@), marker@),
{
    let ghost sv = views(sorted@);
    let mut first: Vec<String> = Vec::new();
    let mut second: Vec<String> = Vec::new();
    let mut i: usize = 0;
    proof {
        broadcast use group_to_multiset_ensures;
        assert(sv.subrange(0, 0) =~= Seq::<Seq<char>>::empty());
    }
    while i < sorted.len()
        invariant
            i <= sorted@.len(),
            sv == views(sorted@),
            sorted_names(sv),
            views(first@).to_multiset().add(views(second@).to_multiset()) == sv.subrange(
                0,
                i as int,
            ).to_multiset(),
            forall|a: int| 0 <= a < first@.len() ==> !is_appendix(marker@, #[trigger] first@[a]@),
            forall|a: int| 0 <= a < second@.len() ==> is_appendix(marker@, #[trigger] second@[a]@),
            forall|a: int| 0 <= a < first@.len() ==> exists|t: int| 0 <= t < i && #[trigger] first@[a]@ == sv[t],
            forall|a: int| 0 <= a < second@.len() ==> exists|t: int| 0 <= t < i && #[trigger] second@[a]@ == sv[t],
            sorted_names(views(first@)),
            sorted_names(views(second@)),
        decreases sorted@.len() - i,
    {
        let name = sorted[i].clone();
        let title = clean_name(norm, name.as_str());
        let app = contains_str(title.as_str(), marker);
        proof {
            broadcast use group_to_multiset_ensures;
            assert(sv.subrange(0, i as int + 1) =~= sv.subrange(0, i as int).push(sv[i as int]));
        }
        if app {
            let ghost before = views(second@);
            second.push(name);
            proof {
                let w = views(second@);
                assert(w =~= before.push(sv[i as int]));
                assert forall|a: int, b: int| 0 <= a < b < w.len() implies name_le(
                    #[trigger] w[a],
                    #[trigger] w[b],
                ) by {
                    if b == w.len() - 1 {
                        assert(second@[a]@ == w[a]);
                        let t = choose|t: int| 0 <= t < i && second@[a]@ == sv[t];
                        assert(name_le(sv[t], sv[i as int]));
                    }
                }
                assert forall|a: int| 0 <= a < second@.len() implies exists|t: int|
                    0 <= t < i + 1 && #[trigger] second@[a]@ == sv[t] by {
                    if a == second@.len() - 1 {
                        assert(second@[a]@ == sv[i as int]);
                    } else {
                        assert(second@[a]@ == before[a]);
                    }
                }
            }
        } else {
            let ghost before = views(first@);
            first.push(name);
            proof {
                let w = views(first@);
                assert(w =~= before.push(sv[i as int]));
                assert forall|a: int, b: int| 0 <= a < b < w.len() implies name_le(
                    #[trigger] w[a],
                    #[trigger] w[b],
                ) by {
                    if b == w.len() - 1 {
                        assert(first@[a]@ == w[a]);
                        let t = choose|t: int| 0 <= t < i && first@[a]@ == sv[t];
                        assert(name_le(sv[t], sv[i as int]));
                    }
                }
                assert forall|a: int| 0 <= a < first@.len() implies exists|t: int|
                    0 <= t < i + 1 && #[trigger] first@[a]@ == sv[t] by {
                    if a == first@.len() - 1 {
                        assert(first@[a]@ == sv[i as int]);
                    } else {
                        assert(first@[a]@ == before[a]);
                    }
                }
            }
        }
        i = i + 1;
    }
    let ghost fv = views(first@);
    let ghost gv = views(second@);
    first.append(&mut second);
    proof {
        broadcast use group_to_multiset_ensures;
        let r = views(first@);
        assert(r =~= fv + gv);
        vstd::seq_lib::lemma_multiset_commutative(fv, gv);
        assert(sv.subrange(0, sv.len() as int) =~= sv);
        assert forall|a: int, b: int| 0 <= a < b < r.len() implies {
            &&& (is_appendix(marker@, #[trigger] r[a]) ==> is_appendix(marker@, #[trigger] r[b]))
            &&& (is_appendix(marker@, r[a]) == is_appendix(marker@, r[b]) ==> name_le(r[a], r[b]))
        } by {
            if a < fv.len() {
                assert(r[a] == fv[a]);
                assert(!is_appendix(marker@, fv[a]));
                if b < fv.len() {
                    assert(r[b] == fv[b]);
                } else {
                    assert(r[b] == gv[b - fv.len()]);
                    assert(is_appendix(marker@, gv[b - fv.len()]));
                }
            } else {
                assert(r[a] == gv[a - fv.len()]);
                assert(r[b] == gv[b - fv.len()]);
                assert(is_appendix(marker@, gv[a - fv.len()]));
                assert(is_appendix(marker@, gv[b - fv.len()]));
            }
        }
    }
    first
}

/// A section as it will appear in the book.
pub struct SectionPlan {
    /// The section folder's name, which is never changed.
    pub folder: String,
    /// The heading of its subfile.
    pub title: String,
    /// Path of its subfile, relative to the book root, with `/` separators.
    pub subfile: String,
}

/// A numbered chapter as it will appear in the book.
pub struct ChapterPlan {
    /// The folder's name as found.
    pub raw: String,
    /// The folder's name once renamed.
    pub folder: String,
    /// The chapter heading.
    pub title: String,
    /// Its sections, in the order they are included.
    pub sections: Vec<SectionPlan>,
}

/// Everything one assembly of a book produces.
pub struct BookPlan {
    /// The numbered chapters, in the order they are emitted.
    pub chapters: Vec<ChapterPlan>,
    /// The text of the root document.
    pub main: String,
}

pub open spec fn subfile_path(chapter: Seq<char>, section: Seq<char>) -> Seq<char> {
    chapter + "/"@ + section + "/"@ + SUBFILE_NAME@
}

/// The directive that includes the subfile at `target`.
pub open spec fn include_line(target: Seq<char>) -> Seq<char> {
    "\\subfile{\""@ + target + "\"}\n"@
}

pub open spec fn sections_text(ss: Seq<SectionPlan>) -> Seq<char>
    decreases ss.len(),
{
    if ss.len() == 0 {
        Seq::empty()
    } else {
        sections_text(ss.drop_last()) + include_line(ss.last().subfile@)
    }
}

/// A chapter's heading followed by the inclusion of each of its sections.
pub open spec fn chapter_text(c: ChapterPlan) -> Seq<char> {
    command("chapter"@, c.title@) + sections_text(c.sections@)
}

pub open spec fn chapters_text(cs: Seq<ChapterPlan>) -> Seq<char>
    decreases cs.len(),
{
    if cs.len() == 0 {
        Seq::empty()
    } else {
        chapters_text(cs.drop_last()) + chapter_text(cs.last())
    }
}

/// The root document of a book with the given chapters.
pub open spec fn main_text(title: Seq<char>, author: Seq<char>, cs: Seq<ChapterPlan>) -> Seq<
    char,
> {
    header_text(title, author) + chapters_text(cs) + "\\end{document}\n"@
}

pub open spec fn section_folders(c: ChapterPlan) -> Seq<Seq<char>> {
    c.sections@.map_values(|s: SectionPlan| s.folder@)
}

pub open spec fn chapter_raws(cs: Seq<ChapterPlan>) -> Seq<Seq<char>> {
    cs.map_values(|c: ChapterPlan| c.raw@)
}

/// A section of the chapter folder `chapter`: titled from its folder name,
/// its subfile inside its own folder.
pub open spec fn section_planned(chapter: Seq<char>, s: SectionPlan) -> bool {
    &&& s.title@ == clean_title(s.folder@)
    &&& s.subfile@ == subfile_path(chapter, s.folder@)
}

/// `c` plans a numbered chapter of the listing `cs`: renamed to its
/// canonical name, titled from it, and holding the chapter's section
/// folders in order.
pub open spec fn chapter_planned(cs: Seq<ChapterEntry>, c: ChapterPlan) -> bool {
    &&& has_numbered_prefix(c.raw@)
    &&& c.folder@ == strip_numbered_prefix(c.raw@)
    &&& c.title@ == clean_title(c.raw@)
    &&& sorted_names(section_folders(c))
    &&& forall|j: int| 0 <= j < c.sections@.len() ==> section_planned(c.folder@, #[trigger] c.sections@[j])
    &&& exists|i: int|
        0 <= i < cs.len() && #[trigger] cs[i].name@ == c.raw@ && section_folders(c).to_multiset()
            == views(cs[i].sections@).to_multiset()
}

/// `plan` assembles the listing `chapters` under `policy`: each numbered
/// chapter once, in policy order, and the root document that includes them.
pub open spec fn plans_book(
    chapters: Seq<ChapterEntry>,
    policy: Policy,
    title: Seq<char>,
    author: Seq<char>,
    plan: BookPlan,
) -> bool {
    &&& forall|k: int| 0 <= k < plan.chapters@.len() ==> chapter_planned(chapters, #[trigger] plan.chapters@[k])
    &&& chapter_raws(plan.chapters@).to_multiset() == numbered_names(chapters).to_multiset()
    &&& in_policy_order(chapter_raws(plan.chapters@), policy)
    &&& plan.main@ == main_text(title, author, plan.chapters@)
}

pub proof fn lemma_numbered_names_found(cs: Seq<ChapterEntry>, x: Seq<char>)
    requires
        numbered_names(cs).contains(x),
    ensures
        has_numbered_prefix(x),
        exists|i: int| 0 <= i < cs.len() && #[trigger] cs[i].name@ == x,
    decreases cs.len(),
{
    let r = numbered_names(cs.drop_last());
    if r.contains(x) {
        lemma_numbered_names_found(cs.drop_last(), x);
        let i = choose|i: int| 0 <= i < cs.drop_last().len() && #[trigger] cs.drop_last()[i].name@ == x;
        assert(cs[i].name@ == x);
    } else {
        assert(cs[cs.len() - 1].name@ == x);
    }
}

fn copy_names(v: &Vec<String>) -> (r: Vec<String>)
    ensures
        views(r@) == views(v@),
{
    let mut r: Vec<String> = Vec::new();
    let mut i: usize = 0;
    while i < v.len()
        invariant
            i <= v@.len(),
            views(r@) == views(v@).subrange(0, i as int),
        decreases v@.len() - i,
    {
        let ghost before = views(r@);
        r.push(v[i].clone());
        assert(views(r@) =~= before.push(v@[i as int]@));
        assert(views(r@) =~= views(v@).subrange(0, i as int + 1));
        i = i + 1;
    }
    assert(views(v@).subrange(0, v@.len() as int) =~= views(v@));
    r
}

/// Plans one numbered chapter and appends its part of the root document.
fn plan_chapter(
    norm: &NameNormalizer,
    b: &mut rusttex::ContentBuilder,
    raw: String,
    entry: &ChapterEntry,
) -> (c: ChapterPlan)
    requires
        has_numbered_prefix(raw@),
        entry.name@ == raw@,
    ensures
        c.raw@ == raw@,
        c.folder@ == strip_numbered_prefix(raw@),
        c.title@ == clean_title(raw@),
        sorted_names(section_folders(c)),
        forall|j: int| 0 <= j < c.sections@.len() ==> section_planned(c.folder@, #[trigger] c.sections@[j]),
        section_folders(c).to_multiset() == views(entry.sections@).to_multiset(),
        builder_text(*final(b)) == builder_text(*old(b)) + chapter_text(c),
{
    let folder = norm.strip_prefix(raw.as_str());
    let title = replace_char(folder.as_str(), '_', ' ');
    assert(title@ =~= clean_title(raw@));
    b.add_literal("\\chapter{");
    b.add_literal(title.as_str());
    b.add_literal("}\n");
    let ghost start = builder_text(*b);
    proof {
        reveal_strlit("\\chapter{");
        reveal_strlit("\\");
        reveal_strlit("chapter");
        reveal_strlit("{");
        assert("\\chapter{"@ =~= "\\"@ + "chapter"@ + "{"@);
    }
    assert(start =~= builder_text(*old(b)) + command("chapter"@, title@));
    let sorted = sort_names(copy_names(&entry.sections));
    let mut sections: Vec<SectionPlan> = Vec::new();
    let mut j: usize = 0;
    while j < sorted.len()
        invariant
            j <= sorted@.len(),
            sections@.len() == j,
            forall|q: int| 0 <= q < j ==> (#[trigger] sections@[q]).folder@ == sorted@[q]@,
            forall|q: int| 0 <= q < j ==> section_planned(folder@, #[trigger] sections@[q]),
            builder_text(*b) == start + sections_text(sections@),
        decreases sorted@.len() - j,
    {
        let s = sorted[j].clone();
        let stitle = clean_name(norm, s.as_str());
        let mut path = String::from_str(folder.as_str());
        path.append("/");
        path.append(s.as_str());
        path.append("/");
        path.append(SUBFILE_NAME);
        let ghost before = builder_text(*b);
        b.add_literal("\\subfile{\"");
        b.add_literal(path.as_str());
        b.add_literal("\"}\n");
        let ghost old_sections = sections@;
        let sp = SectionPlan { folder: s, title: stitle, subfile: path };
        assert(section_planned(folder@, sp));
        sections.push(sp);
        assert(sections@.drop_last() =~= old_sections);
        assert(builder_text(*b) =~= before + include_line(sp.subfile@));
        j = j + 1;
    }
    let c = ChapterPlan { raw, folder, title, sections };
    assert(section_folders(c) =~= views(sorted@));
    c
}

/// Finds the entry named `name`.
fn find_entry(chapters: &Vec<ChapterEntry>, name: &String) -> (i: usize)
    requires
        exists|i: int| 0 <= i < chapters@.len() && #[trigger] chapters@[i].name@ == name@,
    ensures
        i < chapters@.len(),
        chapters@[i as int].name@ == name@,
{
    let mut i: usize = 0;
    while i < chapters.len()
        invariant
            i <= chapters@.len(),
            forall|k: int| 0 <= k < i ==> #[trigger] chapters@[k].name@ != name@,
            exists|i: int| 0 <= i < chapters@.len() && #[trigger] chapters@[i].name@ == name@,
        decreases chapters@.len() - i,
    {
        if chapters[i].name == *name {
            return i;
        }
        i = i + 1;
    }
    i
}

/// Plans the assembly of a book from the listing of its root folder: the
/// numbered chapters in policy order, each renamed to its canonical name,
/// and the root document that includes every section's subfile.
pub fn create_main_tex(
    norm: &NameNormalizer,
    title_book: &str,
    author_sol: &str,
    chapters: &Vec<ChapterEntry>,
    policy: &Policy,
) -> (r: Result<BookPlan, AssemblyError>)
    ensures
        r is Ok <==> !has_collision(chapters@),
        r matches Ok(plan) ==> plans_book(chapters@, *policy, title_book@, author_sol@, plan),
        r matches Err(AssemblyError::DuplicateChapter { name }) ==> exists|i: int, j: int|
            0 <= i < j < chapters@.len() && strip_numbered_prefix(chapters@[i].name@) == name@
                && strip_numbered_prefix(chapters@[j].name@) == name@,
{
    match find_collision(norm, chapters) {
        Some(name) => {
            return Err(AssemblyError::DuplicateChapter { name });
        },
        None => {},
    }
    let sorted = sort_names(collect_numbered(norm, chapters));
    let order = match policy {
        Policy::Numbered => sorted,
        Policy::AppendixLast { marker } => appendices_last(norm, sorted, marker.as_str()),
    };
    let ghost ov = views(order@);
    assert(in_policy_order(ov, *policy));
    assert(ov.to_multiset() == numbered_names(chapters@).to_multiset());
    let mut b = main_header(title_book, author_sol);
    let mut planned: Vec<ChapterPlan> = Vec::new();
    let mut k: usize = 0;
    while k < order.len()
        invariant
            k <= order@.len(),
            ov == views(order@),
            ov.to_multiset() == numbered_names(chapters@).to_multiset(),
            planned@.len() == k,
            chapter_raws(planned@) == ov.subrange(0, k as int),
            forall|q: int| 0 <= q < k ==> chapter_planned(chapters@, #[trigger] planned@[q]),
            builder_text(b) == header_text(title_book@, author_sol@) + chapters_text(planned@),
        decreases order@.len() - k,
    {
        let raw = order[k].clone();
        proof {
            broadcast use group_to_multiset_ensures;
            assert(ov[k as int] == raw@);
            assert(ov.contains(raw@));
            assert(numbered_names(chapters@).to_multiset().count(raw@) > 0);
            lemma_numbered_names_found(chapters@, raw@);
        }
        let i = find_entry(chapters, &raw);
        let ghost before = builder_text(b);
        let c = plan_chapter(norm, &mut b, raw, &chapters[i]);
        let ghost old_planned = planned@;
        planned.push(c);
        proof {
            assert(planned@.drop_last() =~= old_planned);
            assert(chapter_raws(planned@) =~= ov.subrange(0, k as int + 1));
            assert(chapter_planned(chapters@, c));
        }
        k = k + 1;
    }
    b.end_document();
    let main = String::from_str(b.build_document());
    let plan = BookPlan { chapters: planned, main };
    proof {
        assert(ov.subrange(0, ov.len() as int) =~= ov);
        assert(plan.main@ =~= main_text(title_book@, author_sol@, plan.chapters@));
    }
    Ok(plan)
}

/// A subfile to write: its path relative to the book root, and its text.
pub struct Subfile {
    pub path: String,
    pub content: String,
}

/// The sections of all chapters, chapter after chapter.
pub open spec fn planned_sections(cs: Seq<ChapterPlan>) -> Seq<SectionPlan>
    decreases cs.len(),
{
    if cs.len() == 0 {
        Seq::empty()
    } else {
        planned_sections(cs.drop_last()) + cs.last().sections@
    }
}

impl ChapterPlan {
    /// Whether the chapter folder has to be renamed.
    pub fn needs_rename(&self) -> (r: bool)
        ensures
            r == (self.raw@ != self.folder@),
    {
        !(self.raw == self.folder)
    }
}

impl BookPlan {
    /// The subfile of every planned section, in the order of inclusion.
    pub fn subfiles(&self) -> (r: Vec<Subfile>)
        ensures
            r@.len() == planned_sections(self.chapters@).len(),
            forall|w: int|
                0 <= w < r@.len() ==> (#[trigger] r@[w]).path@ == planned_sections(
                    self.chapters@,
                )[w].subfile@ && r@[w].content@ == subfile_text(
                    planned_sections(self.chapters@)[w].title@,
                ),
    {
        let mut r: Vec<Subfile> = Vec::new();
        let mut k: usize = 0;
        while k < self.chapters.len()
            invariant
                k <= self.chapters@.len(),
                r@.len() == planned_sections(self.chapters@.subrange(0, k as int)).len(),
                forall|w: int|
                    0 <= w < r@.len() ==> (#[trigger] r@[w]).path@ == planned_sections(
                        self.chapters@.subrange(0, k as int),
                    )[w].subfile@ && r@[w].content@ == subfile_text(
                        planned_sections(self.chapters@.subrange(0, k as int))[w].title@,
                    ),
            decreases self.chapters@.len() - k,
        {
            let c = &self.chapters[k];
            let ghost done = planned_sections(self.chapters@.subrange(0, k as int));
            proof {
                assert(self.chapters@.subrange(0, k as int + 1).drop_last() =~= self.chapters@.subrange(0, k as int));
            }
            let ghost next = planned_sections(self.chapters@.subrange(0, k as int + 1));
            assert(next == done + c.sections@);
            let mut j: usize = 0;
            while j < c.sections.len()
                invariant
                    j <= c.sections@.len(),
                    next == done + c.sections@,
                    r@.len() == done.len() + j,
                    forall|w: int|
                        0 <= w < r@.len() ==> (#[trigger] r@[w]).path@ == next[w].subfile@
                            && r@[w].content@ == subfile_text(next[w].title@),
                decreases c.sections@.len() - j,
            {
                let s = &c.sections[j];
                let content = create_subfile_tex(s.title.as_str());
                r.push(Subfile { path: s.subfile.clone(), content });
                j = j + 1;
            }
            k = k + 1;
        }
        assert(self.chapters@.subrange(0, self.chapters@.len() as int) =~= self.chapters@);
        r
    }
}

} // verus!
