//! Properties that hold of every assembly.
use vstd::prelude::*;
use vstd::seq_lib::*;
use crate::names::{is_digit, digit_run, has_numbered_prefix, strip_numbered_prefix, clean_title, spaced};
use crate::order::{name_lt, name_le};
use crate::latex::SUBFILE_NAME;
use crate::assembly::{
    ChapterEntry, ChapterPlan, BookPlan, Policy, plans_book, chapter_planned, chapter_raws,
    numbered_names, main_text, is_appendix, section_folders, section_planned, planned_sections,
};

verus! {

proof fn lemma_digit_run_digits(s: Seq<char>)
    ensures
        digit_run(s) <= s.len(),
        forall|i: int| 0 <= i < digit_run(s) ==> is_digit(#[trigger] s[i]),
        digit_run(s) < s.len() ==> !is_digit(s[digit_run(s) as int]),
    decreases s.len(),
{
    if s.len() > 0 && is_digit(s[0]) {
        lemma_digit_run_digits(s.drop_first());
        assert forall|i: int| 0 <= i < digit_run(s) implies is_digit(#[trigger] s[i]) by {
            if i > 0 {
                assert(s[i] == s.drop_first()[i - 1]);
            }
        }
    }
}

/// Cleaning a numbered name removes exactly its leading digits and the `_`
/// after them, and the title has no `_` left; a name without that prefix
/// keeps its folder name.
pub proof fn lemma_clean_name(raw: Seq<char>)
    ensures
        has_numbered_prefix(raw) ==> {
            let k = digit_run(raw) as int;
            &&& 1 <= k < raw.len()
            &&& forall|i: int| 0 <= i < k ==> is_digit(#[trigger] raw[i])
            &&& raw[k] == '_'
            &&& raw == raw.subrange(0, k + 1) + strip_numbered_prefix(raw)
        },
        !has_numbered_prefix(raw) ==> strip_numbered_prefix(raw) == raw,
        clean_title(raw) == spaced(strip_numbered_prefix(raw)),
        clean_title(raw).len() == strip_numbered_prefix(raw).len(),
        forall|i: int| 0 <= i < clean_title(raw).len() ==> #[trigger] clean_title(raw)[i] != '_',
{
    lemma_digit_run_digits(raw);
    if has_numbered_prefix(raw) {
        let k = digit_run(raw) as int;
        assert(raw =~= raw.subrange(0, k + 1) + raw.subrange(k + 1, raw.len() as int));
    }
}

/// A chapter whose name has no numbered prefix, such as one already renamed
/// to its canonical name, is never planned, so never renamed.
pub proof fn lemma_unnumbered_not_renamed(
    chapters: Seq<ChapterEntry>,
    policy: Policy,
    title: Seq<char>,
    author: Seq<char>,
    plan: BookPlan,
    name: Seq<char>,
)
    requires
        plans_book(chapters, policy, title, author, plan),
        !has_numbered_prefix(name),
    ensures
        forall|k: int| 0 <= k < plan.chapters@.len() ==> (#[trigger] plan.chapters@[k]).raw@ != name,
{
    assert forall|k: int| 0 <= k < plan.chapters@.len() implies (#[trigger] plan.chapters@[k]).raw@
        != name by {
        assert(chapter_planned(chapters, plan.chapters@[k]));
    }
}

/// Every planned chapter is renamed: its canonical name is shorter.
pub proof fn lemma_planned_chapters_renamed(
    chapters: Seq<ChapterEntry>,
    policy: Policy,
    title: Seq<char>,
    author: Seq<char>,
    plan: BookPlan,
)
    requires
        plans_book(chapters, policy, title, author, plan),
    ensures
        forall|k: int|
            0 <= k < plan.chapters@.len() ==> (#[trigger] plan.chapters@[k]).raw@
                != plan.chapters@[k].folder@,
{
    assert forall|k: int| 0 <= k < plan.chapters@.len() implies (#[trigger] plan.chapters@[k]).raw@
        != plan.chapters@[k].folder@ by {
        let c = plan.chapters@[k];
        assert(chapter_planned(chapters, c));
        assert(c.folder@.len() < c.raw@.len());
    }
}

proof fn lemma_no_numbered_names(cs: Seq<ChapterEntry>)
    requires
        forall|i: int| 0 <= i < cs.len() ==> !has_numbered_prefix(#[trigger] cs[i].name@),
    ensures
        numbered_names(cs).len() == 0,
    decreases cs.len(),
{
    if cs.len() > 0 {
        assert forall|i: int| 0 <= i < cs.drop_last().len() implies !has_numbered_prefix(
            #[trigger] cs.drop_last()[i].name@,
        ) by {
            assert(cs.drop_last()[i] == cs[i]);
        }
        lemma_no_numbered_names(cs.drop_last());
    }
}

/// On a tree whose chapters all carry canonical names, assembly renames
/// nothing, writes no subfile, and the root document depends on the title
/// and author alone: two runs produce the same text.
pub proof fn lemma_canonical_tree_stable(
    chapters: Seq<ChapterEntry>,
    policy: Policy,
    title: Seq<char>,
    author: Seq<char>,
    first: BookPlan,
    second: BookPlan,
)
    requires
        forall|i: int| 0 <= i < chapters.len() ==> !has_numbered_prefix(#[trigger] chapters[i].name@),
        plans_book(chapters, policy, title, author, first),
        plans_book(chapters, policy, title, author, second),
    ensures
        first.chapters@.len() == 0,
        second.chapters@.len() == 0,
        first.main@ == second.main@,
        first.main@ == main_text(title, author, Seq::empty()),
{
    broadcast use group_to_multiset_ensures;

    lemma_no_numbered_names(chapters);
    assert(numbered_names(chapters).to_multiset().len() == 0);
    assert(chapter_raws(first.chapters@).len() == 0);
    assert(chapter_raws(second.chapters@).len() == 0);
    assert(first.chapters@ =~= Seq::<ChapterPlan>::empty());
    assert(second.chapters@ =~= Seq::<ChapterPlan>::empty());
}

proof fn lemma_common_prefix_lt(p: Seq<char>, a: Seq<char>, b: Seq<char>)
    ensures
        name_lt(p + a, p + b) == name_lt(a, b),
    decreases p.len(),
{
    if p.len() > 0 {
        assert((p + a).drop_first() =~= p.drop_first() + a);
        assert((p + b).drop_first() =~= p.drop_first() + b);
        lemma_common_prefix_lt(p.drop_first(), a, b);
    } else {
        assert(p + a =~= a);
        assert(p + b =~= b);
    }
}

/// Under the numbered policy chapters come in the order of their raw names;
/// within a chapter, sections come in the order of their full paths below
/// any root folder.
pub proof fn lemma_emission_order(
    chapters: Seq<ChapterEntry>,
    title: Seq<char>,
    author: Seq<char>,
    plan: BookPlan,
    root: Seq<char>,
)
    requires
        plans_book(chapters, Policy::Numbered, title, author, plan),
    ensures
        forall|i: int, j: int|
            0 <= i < j < plan.chapters@.len() ==> name_le(
                (#[trigger] plan.chapters@[i]).raw@,
                (#[trigger] plan.chapters@[j]).raw@,
            ),
        forall|k: int, i: int, j: int|
            0 <= k < plan.chapters@.len() && 0 <= i < j < plan.chapters@[k].sections@.len()
                ==> name_le(
                root + "/"@ + plan.chapters@[k].folder@ + "/"@ + (
                #[trigger] plan.chapters@[k].sections@[i]).folder@,
                root + "/"@ + plan.chapters@[k].folder@ + "/"@ + (
                #[trigger] plan.chapters@[k].sections@[j]).folder@,
            ),
{
    let raws = chapter_raws(plan.chapters@);
    assert forall|i: int, j: int| 0 <= i < j < plan.chapters@.len() implies name_le(
        (#[trigger] plan.chapters@[i]).raw@,
        (#[trigger] plan.chapters@[j]).raw@,
    ) by {
        assert(raws[i] == plan.chapters@[i].raw@);
        assert(raws[j] == plan.chapters@[j].raw@);
    }
    assert forall|k: int, i: int, j: int|
        0 <= k < plan.chapters@.len() && 0 <= i < j < plan.chapters@[k].sections@.len() implies name_le(
        root + "/"@ + plan.chapters@[k].folder@ + "/"@ + (
        #[trigger] plan.chapters@[k].sections@[i]).folder@,
        root + "/"@ + plan.chapters@[k].folder@ + "/"@ + (
        #[trigger] plan.chapters@[k].sections@[j]).folder@,
    ) by {
        let c = plan.chapters@[k];
        assert(chapter_planned(chapters, c));
        let f = section_folders(c);
        assert(f[i] == c.sections@[i].folder@);
        assert(f[j] == c.sections@[j].folder@);
        let p = root + "/"@ + c.folder@ + "/"@;
        lemma_common_prefix_lt(p, f[j], f[i]);
    }
}

/// Under the appendix-aware policy every chapter without the marker comes
/// before every chapter with it, whatever their raw names.
pub proof fn lemma_appendices_after_chapters(
    chapters: Seq<ChapterEntry>,
    marker: String,
    title: Seq<char>,
    author: Seq<char>,
    plan: BookPlan,
)
    requires
        plans_book(chapters, Policy::AppendixLast { marker }, title, author, plan),
    ensures
        forall|i: int, j: int|
            0 <= i < plan.chapters@.len() && 0 <= j < plan.chapters@.len() && !is_appendix(
                marker@,
                (#[trigger] plan.chapters@[i]).raw@,
            ) && is_appendix(marker@, (#[trigger] plan.chapters@[j]).raw@) ==> i < j,
{
    let raws = chapter_raws(plan.chapters@);
    assert forall|i: int, j: int|
        0 <= i < plan.chapters@.len() && 0 <= j < plan.chapters@.len() && !is_appendix(
            marker@,
            (#[trigger] plan.chapters@[i]).raw@,
        ) && is_appendix(marker@, (#[trigger] plan.chapters@[j]).raw@) implies i < j by {
        assert(raws[i] == plan.chapters@[i].raw@);
        assert(raws[j] == plan.chapters@[j].raw@);
        if j < i {
            assert(is_appendix(marker@, raws[j]) ==> is_appendix(marker@, raws[i]));
        }
    }
}

proof fn lemma_planned_sections_contain(cs: Seq<ChapterPlan>, k: int, j: int)
    requires
        0 <= k < cs.len(),
        0 <= j < cs[k].sections@.len(),
    ensures
        planned_sections(cs).contains(cs[k].sections@[j]),
    decreases cs.len(),
{
    let d = planned_sections(cs.drop_last());
    if k == cs.len() - 1 {
        assert(planned_sections(cs)[d.len() + j] == cs[k].sections@[j]);
    } else {
        lemma_planned_sections_contain(cs.drop_last(), k, j);
        let w = choose|w: int| 0 <= w < d.len() && d[w] == cs[k].sections@[j];
        assert(planned_sections(cs)[w] == cs[k].sections@[j]);
    }
}

/// Every inclusion directive of the root document targets the subfile in
/// its section's folder under the renamed chapter folder, and that subfile
/// is among the ones the plan writes.
pub proof fn lemma_includes_are_written(
    chapters: Seq<ChapterEntry>,
    policy: Policy,
    title: Seq<char>,
    author: Seq<char>,
    plan: BookPlan,
)
    requires
        plans_book(chapters, policy, title, author, plan),
    ensures
        forall|k: int, j: int|
            0 <= k < plan.chapters@.len() && 0 <= j < plan.chapters@[k].sections@.len() ==> {
                let s = #[trigger] plan.chapters@[k].sections@[j];
                &&& s.subfile@ == plan.chapters@[k].folder@ + "/"@ + s.folder@ + "/"@
                    + SUBFILE_NAME@
                &&& planned_sections(plan.chapters@).contains(s)
            },
{
    assert forall|k: int, j: int|
        0 <= k < plan.chapters@.len() && 0 <= j < plan.chapters@[k].sections@.len() implies {
        let s = #[trigger] plan.chapters@[k].sections@[j];
        &&& s.subfile@ == plan.chapters@[k].folder@ + "/"@ + s.folder@ + "/"@ + SUBFILE_NAME@
        &&& planned_sections(plan.chapters@).contains(s)
    } by {
        assert(chapter_planned(chapters, plan.chapters@[k]));
        assert(section_planned(plan.chapters@[k].folder@, plan.chapters@[k].sections@[j]));
        lemma_planned_sections_contain(plan.chapters@, k, j);
    }
}

} // verus!
