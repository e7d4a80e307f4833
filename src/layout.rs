//! Layout of extracted problems into chapter and section folders.
use vstd::prelude::*;
use vstd::string::*;
use vstd::seq_lib::group_to_multiset_ensures;
use crate::names::replace_char;
use crate::order::{name_lt, name_le, sort_names, views, sorted_names, lemma_name_lt_total, lemma_name_lt_transitive};

verus! {

/// One problem as extracted from the source document.
pub struct Problem {
    pub section: String,
    pub title: String,
    pub page_start: u32,
    pub page_end: u32,
    pub content: String,
    pub image_path: Option<String>,
}

pub open spec fn digit_char(d: nat) -> char {
    seq!['0', '1', '2', '3', '4', '5', '6', '7', '8', '9'][d as int]
}

/// Decimal digits of `n`, most significant first, without leading zeros.
pub open spec fn decimal(n: nat) -> Seq<char>
    decreases n,
{
    if n < 10 {
        seq![digit_char(n)]
    } else {
        decimal(n / 10) + seq![digit_char(n % 10)]
    }
}

/// Relies on u32's Display impl: the number in decimal, without sign or
/// leading zeros.
#[verifier::external_body]
fn u32_text(n: u32) -> (r: String)
    ensures
        r@ == decimal(n as nat),
{
    n.to_string()
}

/// The lowercase form of a string.
pub uninterp spec fn lower_of(s: Seq<char>) -> Seq<char>;

/// Relies on str::to_lowercase: the result depends on the characters alone,
/// and the empty string stays empty.
#[verifier::external_body]
fn lowercase(s: &str) -> (r: String)
    ensures
        r@ == lower_of(s@),
        s@.len() == 0 ==> r@.len() == 0,
{
    s.to_lowercase()
}

/// Every space of `s` turned into `_`.
pub open spec fn underscored(s: Seq<char>) -> Seq<char> {
    s.map_values(|c: char| if c == ' ' { '_' } else { c })
}

/// The folder name of a part whose name has already been lowercased.
pub fn dir_name_from_lower(lower: &str) -> (r: String)
    ensures
        r@ == underscored(lower@),
{
    replace_char(lower, ' ', '_')
}

/// The folder name of a part: lowercased, spaces turned into `_`.
pub fn chapter_dir_name(part: &str) -> (r: String)
    ensures
        r@ == underscored(lower_of(part@)),
{
    let lower = lowercase(part);
    dir_name_from_lower(lower.as_str())
}

/// The comment line that a part's `chapter.tex` holds.
pub fn chapter_tex(part: &str) -> (r: String)
    ensures
        r@ == "% Archivo "@ + part@ + " chapter.tex\n"@,
{
    let mut r = String::from_str("% Archivo ");
    r.append(part);
    r.append(" chapter.tex\n");
    r
}

pub open spec fn image_text(image: Option<String>) -> Seq<char> {
    match image {
        Some(img) => "\\includegraphics{"@ + img@ + "}\n"@,
        None => Seq::empty(),
    }
}

/// The block of one problem in a section's `problems.tex`.
pub open spec fn problem_text(p: Problem) -> Seq<char> {
    "\\section*{"@ + p.title@ + "}\n"@ + "Sección: "@ + p.section@ + "\n"@ + "Páginas: "@
        + decimal(p.page_start as nat) + "-"@ + decimal(p.page_end as nat) + "\n"@
        + "Contenido:\n"@ + p.content@ + "\n\n"@ + image_text(p.image_path) + "\n---\n\n"@
}

pub open spec fn problems_text(ps: Seq<Problem>) -> Seq<char>
    decreases ps.len(),
{
    if ps.len() == 0 {
        Seq::empty()
    } else {
        problems_text(ps.drop_last()) + problem_text(ps.last())
    }
}

pub open spec fn picked(problems: Seq<Problem>, members: Seq<usize>) -> Seq<Problem> {
    members.map_values(|m: usize| problems[m as int])
}

pub open spec fn problems_header() -> Seq<char> {
    "% Archivo generado automáticamente con los problemas\n"@
}

fn append_problem(r: &mut String, p: &Problem)
    ensures
        final(r)@ == old(r)@ + problem_text(*p),
{
    r.append("\\section*{");
    r.append(p.title.as_str());
    r.append("}\n");
    r.append("Sección: ");
    r.append(p.section.as_str());
    r.append("\n");
    r.append("Páginas: ");
    let start = u32_text(p.page_start);
    r.append(start.as_str());
    r.append("-");
    let end = u32_text(p.page_end);
    r.append(end.as_str());
    r.append("\n");
    r.append("Contenido:\n");
    r.append(p.content.as_str());
    r.append("\n\n");
    match &p.image_path {
        Some(img) => {
            r.append("\\includegraphics{");
            r.append(img.as_str());
            r.append("}\n");
        },
        None => {},
    }
    r.append("\n---\n\n");
    assert(final(r)@ =~= old(r)@ + problem_text(*p));
}

/// The `problems.tex` of a section holding the problems at `members`, in
/// that order.
pub fn problems_tex(problems: &Vec<Problem>, members: &Vec<usize>) -> (r: String)
    requires
        forall|m: int| 0 <= m < members@.len() ==> (#[trigger] members@[m]) < problems@.len(),
    ensures
        r@ == problems_header() + problems_text(picked(problems@, members@)),
{
    let mut r = String::from_str("% Archivo generado automáticamente con los problemas\n");
    let mut i: usize = 0;
    while i < members.len()
        invariant
            i <= members@.len(),
            forall|m: int| 0 <= m < members@.len() ==> (#[trigger] members@[m]) < problems@.len(),
            r@ == problems_header() + problems_text(picked(problems@, members@.subrange(0, i as int))),
        decreases members@.len() - i,
    {
        append_problem(&mut r, &problems[members[i]]);
        assert(picked(problems@, members@.subrange(0, i as int + 1)).drop_last() =~= picked(
            problems@,
            members@.subrange(0, i as int),
        ));
        i = i + 1;
    }
    assert(members@.subrange(0, members@.len() as int) =~= members@);
    r
}

/// The problems of one section: indices into the list of problems.
pub struct SectionGroup {
    pub section: String,
    pub members: Vec<usize>,
}

pub open spec fn section_names(ps: Seq<Problem>) -> Seq<Seq<char>> {
    ps.map_values(|p: Problem| p.section@)
}

/// The indices of the problems of `section`, ascending.
fn members_of(problems: &Vec<Problem>, section: &String) -> (r: Vec<usize>)
    ensures
        forall|m: int| 0 <= m < r@.len() ==> (#[trigger] r@[m]) < problems@.len()
            && problems@[r@[m] as int].section@ == section@,
        forall|a: int, b: int| 0 <= a < b < r@.len() ==> r@[a] < r@[b],
        forall|q: int| 0 <= q < problems@.len() && #[trigger] problems@[q].section@ == section@
            ==> r@.contains(q as usize),
{
    let mut r: Vec<usize> = Vec::new();
    let mut j: usize = 0;
    while j < problems.len()
        invariant
            j <= problems@.len(),
            forall|m: int| 0 <= m < r@.len() ==> (#[trigger] r@[m]) < j
                && problems@[r@[m] as int].section@ == section@,
            forall|a: int, b: int| 0 <= a < b < r@.len() ==> r@[a] < r@[b],
            forall|q: int| 0 <= q < j && #[trigger] problems@[q].section@ == section@
                ==> r@.contains(q as usize),
        decreases problems@.len() - j,
    {
        if problems[j].section == *section {
            let ghost before = r@;
            r.push(j);
            assert forall|q: int| 0 <= q < j + 1 && #[trigger] problems@[q].section@ == section@
                implies r@.contains(q as usize) by {
                if q < j {
                    let w = choose|w: int| 0 <= w < before.len() && before[w] == q as usize;
                    assert(r@[w] == q as usize);
                } else {
                    assert(r@[r@.len() - 1] == q as usize);
                }
            }
        }
        j = j + 1;
    }
    r
}

fn section_list(problems: &Vec<Problem>) -> (r: Vec<String>)
    ensures
        views(r@) == section_names(problems@),
{
    let mut r: Vec<String> = Vec::new();
    let mut i: usize = 0;
    while i < problems.len()
        invariant
            i <= problems@.len(),
            views(r@) == section_names(problems@).subrange(0, i as int),
        decreases problems@.len() - i,
    {
        let ghost before = views(r@);
        r.push(problems[i].section.clone());
        assert(views(r@) =~= before.push(problems@[i as int].section@));
        assert(views(r@) =~= section_names(problems@).subrange(0, i as int + 1));
        i = i + 1;
    }
    assert(section_names(problems@).subrange(0, problems@.len() as int) =~= section_names(problems@));
    r
}

proof fn lemma_section_listed(problems: Seq<Problem>, sv: Seq<Seq<char>>, q: int) -> (t: int)
    requires
        0 <= q < problems.len(),
        sv.to_multiset() == section_names(problems).to_multiset(),
    ensures
        0 <= t < sv.len(),
        sv[t] == problems[q].section@,
{
    let x = problems[q].section@;
    assert(section_names(problems)[q] == x);
    assert(section_names(problems).contains(x));
    vstd::seq_lib::to_multiset_contains(sv, x);
    vstd::seq_lib::to_multiset_contains(section_names(problems), x);
    choose|t: int| 0 <= t < sv.len() && sv[t] == x
}

/// Groups problems by section: one group per distinct section, in
/// ascending order of section name, each listing the indices of its
/// problems in the order they are given.
pub fn group_by_section(problems: &Vec<Problem>) -> (r: Vec<SectionGroup>)
    ensures
        forall|a: int, b: int| 0 <= a < b < r@.len() ==> name_lt(
            (#[trigger] r@[a]).section@,
            (#[trigger] r@[b]).section@,
        ),
        forall|g: int, m: int|
            0 <= g < r@.len() && 0 <= m < r@[g].members@.len() ==> (#[trigger] r@[g].members@[m])
                < problems@.len() && problems@[r@[g].members@[m] as int].section@ == r@[g].section@,
        forall|g: int, a: int, b: int|
            0 <= g < r@.len() && 0 <= a < b < r@[g].members@.len() ==> #[trigger] r@[g].members@[a]
                < #[trigger] r@[g].members@[b],
        forall|g: int, q: int|
            0 <= g < r@.len() && 0 <= q < problems@.len() && #[trigger] problems@[q].section@
                == (#[trigger] r@[g]).section@ ==> r@[g].members@.contains(q as usize),
        forall|q: int|
            0 <= q < problems@.len() ==> exists|g: int|
                0 <= g < r@.len() && (#[trigger] r@[g]).section@ == #[trigger] problems@[q].section@,
{
    let sorted = sort_names(section_list(problems));
    let ghost sv = views(sorted@);
    let mut groups: Vec<SectionGroup> = Vec::new();
    let ghost mut last: int = 0;
    let mut i: usize = 0;
    while i < sorted.len()
        invariant
            i <= sorted@.len(),
            sv == views(sorted@),
            sorted_names(sv),
            groups@.len() > 0 ==> 0 <= last < i && groups@.last().section@ == sv[last],
            groups@.len() == 0 ==> i == 0,
            forall|a: int, b: int| 0 <= a < b < groups@.len() ==> name_lt(
                (#[trigger] groups@[a]).section@,
                (#[trigger] groups@[b]).section@,
            ),
            forall|a: int| 0 <= a < groups@.len() - 1 ==> name_lt(
                (#[trigger] groups@[a]).section@,
                groups@.last().section@,
            ),
            forall|t: int| 0 <= t < i ==> exists|g: int|
                0 <= g < groups@.len() && (#[trigger] groups@[g]).section@ == #[trigger] sv[t],
            forall|g: int, m: int|
                0 <= g < groups@.len() && 0 <= m < groups@[g].members@.len() ==> (
                #[trigger] groups@[g].members@[m]) < problems@.len()
                    && problems@[groups@[g].members@[m] as int].section@ == groups@[g].section@,
            forall|g: int, a: int, b: int|
                0 <= g < groups@.len() && 0 <= a < b < groups@[g].members@.len()
                    ==> #[trigger] groups@[g].members@[a] < #[trigger] groups@[g].members@[b],
            forall|g: int, q: int|
                0 <= g < groups@.len() && 0 <= q < problems@.len() && #[trigger] problems@[q].section@
                    == (#[trigger] groups@[g]).section@ ==> groups@[g].members@.contains(q as usize),
        decreases sorted@.len() - i,
    {
        let is_new = groups.len() == 0 || !(groups[groups.len() - 1].section == sorted[i]);
        if is_new {
            let section = sorted[i].clone();
            let members = members_of(problems, &section);
            let ghost before = groups@;
            proof {
                if before.len() > 0 {
                    assert(name_le(sv[last], sv[i as int]));
                    lemma_name_lt_total(sv[last], sv[i as int]);
                    assert forall|a: int| 0 <= a < before.len() implies name_lt(
                        (#[trigger] before[a]).section@,
                        sv[i as int],
                    ) by {
                        if a < before.len() - 1 {
                            lemma_name_lt_transitive(before[a].section@, sv[last], sv[i as int]);
                        }
                    }
                }
            }
            groups.push(SectionGroup { section, members });
            proof {
                last = i as int;
                assert forall|t: int| 0 <= t < i + 1 implies exists|g: int|
                    0 <= g < groups@.len() && (#[trigger] groups@[g]).section@ == #[trigger] sv[t] by {
                    if t < i {
                        let g = choose|g: int| 0 <= g < before.len() && (#[trigger] before[g]).section@ == sv[t];
                        assert(groups@[g] == before[g]);
                    } else {
                        assert(groups@[groups@.len() - 1].section@ == sv[t]);
                    }
                }
                assert forall|a: int, b: int| 0 <= a < b < groups@.len() implies name_lt(
                    (#[trigger] groups@[a]).section@,
                    (#[trigger] groups@[b]).section@,
                ) by {
                    assert(groups@[a] == before[a]);
                    if b < before.len() {
                        assert(groups@[b] == before[b]);
                    }
                }
            }
        } else {
            proof {
                assert(groups@[groups@.len() - 1].section@ == sv[i as int]);
            }
        }
        i = i + 1;
    }
    proof {
        assert forall|q: int| 0 <= q < problems@.len() implies exists|g: int|
            0 <= g < groups@.len() && (#[trigger] groups@[g]).section@ == #[trigger] problems@[q].section@ by {
            let t = lemma_section_listed(problems@, sv, q);
            assert(sv[t] == problems@[q].section@);
        }
    }
    groups
}

} // verus!
