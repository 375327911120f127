//! Library-wide laws, each proved from the planner's contracts alone.
use vstd::prelude::*;
use vstd::seq_lib::group_filter_ensures;
use vstd::seq_lib::group_seq_properties;
use crate::aggregate::content_agg_spec;
use crate::book::Book;
use crate::globmatch::file_selected;
use crate::plan::{
    module_plan_matches, render_plan_matches, ExercisePlan, FileCopy, ModulePlan, RenderPlan,
    UnitPlan,
};
use crate::template::content_marker;
use crate::textops::{matches_at, replace_all_spec, trim_spec};
use crate::types::{LoadedModule, LoadedTopic};

verus! {

/// View equality of two copy lists.
pub open spec fn copies_equiv(a: Seq<FileCopy>, b: Seq<FileCopy>) -> bool {
    &&& a.len() == b.len()
    &&& forall|k: int|
        0 <= k < a.len() ==> (#[trigger] a[k]).from@ == b[k].from@ && a[k].to@ == b[k].to@
}

/// View equality of two exercise plans.
pub open spec fn exercise_plans_equiv(a: ExercisePlan, b: ExercisePlan) -> bool {
    &&& a.name@ == b.name@
    &&& a.tag@ == b.tag@
    &&& a.dir@ == b.dir@
    &&& a.source_dir@ == b.source_dir@
    &&& a.description_path@ == b.description_path@
    &&& copies_equiv(a.copies@, b.copies@)
}

/// View equality of two unit plans.
pub open spec fn unit_plans_equiv(a: UnitPlan, b: UnitPlan) -> bool {
    &&& a.name@ == b.name@
    &&& a.tag@ == b.tag@
    &&& a.dir@ == b.dir@
    &&& a.slides_path@ == b.slides_path@
    &&& a.slides_content@ == b.slides_content@
    &&& a.exercises_dir@ == b.exercises_dir@
    &&& a.exercises@.len() == b.exercises@.len()
    &&& forall|k: int|
        0 <= k < a.exercises@.len() ==> exercise_plans_equiv(
            #[trigger] a.exercises@[k],
            b.exercises@[k],
        )
}

/// View equality of two module plans.
pub open spec fn module_plans_equiv(a: ModulePlan, b: ModulePlan) -> bool {
    &&& a.name@ == b.name@
    &&& a.tag@ == b.tag@
    &&& a.dir@ == b.dir@
    &&& a.units@.len() == b.units@.len()
    &&& forall|j: int|
        0 <= j < a.units@.len() ==> unit_plans_equiv(#[trigger] a.units@[j], b.units@[j])
}

/// View equality of two books.
pub open spec fn books_equiv(a: Book, b: Book) -> bool {
    &&& a.chapters@.len() == b.chapters@.len()
    &&& forall|i: int|
        0 <= i < a.chapters@.len() ==> {
            let ca = #[trigger] a.chapters@[i];
            let cb = b.chapters@[i];
            ca.title@ == cb.title@ && ca.sections@.len() == cb.sections@.len() && forall|j: int|
                0 <= j < ca.sections@.len() ==> {
                    let sa = #[trigger] ca.sections@[j];
                    let sb = cb.sections@[j];
                    sa.title@ == sb.title@ && sa.subsections@.len() == sb.subsections@.len()
                        && forall|k: int|
                        0 <= k < sa.subsections@.len() ==> (#[trigger] sa.subsections@[k]).title@
                            == sb.subsections@[k].title@ && sa.subsections@[k].content_path@
                            == sb.subsections@[k].content_path@
                }
        }
}

/// View equality of two render plans: the same directories, the same
/// documents, the same copies, the same book — the same output tree.
pub open spec fn render_plans_equiv(a: RenderPlan, b: RenderPlan) -> bool {
    &&& a.output_dir@ == b.output_dir@
    &&& a.clear_first == b.clear_first
    &&& a.modules@.len() == b.modules@.len()
    &&& forall|i: int|
        0 <= i < a.modules@.len() ==> module_plans_equiv(#[trigger] a.modules@[i], b.modules@[i])
    &&& books_equiv(a.book, b.book)
}

/// Law: the build is deterministic. Any two plans produced for the same
/// loaded hierarchy, output directory and clear flag describe the same
/// output tree, so running the build twice writes byte-identical trees.
pub proof fn lemma_render_deterministic(
    p1: RenderPlan,
    p2: RenderPlan,
    modules: Seq<LoadedModule>,
    output_dir: Seq<char>,
    clear_output: bool,
)
    requires
        render_plan_matches(p1, modules, output_dir, clear_output),
        render_plan_matches(p2, modules, output_dir, clear_output),
    ensures
        render_plans_equiv(p1, p2),
{
    assert forall|i: int| 0 <= i < p1.modules@.len() implies module_plans_equiv(
        #[trigger] p1.modules@[i],
        p2.modules@[i],
    ) by {
        let ma = p1.modules@[i];
        let mb = p2.modules@[i];
        assert(module_plan_matches(ma, modules[i], output_dir, i + 1));
        assert(module_plan_matches(mb, modules[i], output_dir, i + 1));
        assert forall|j: int| 0 <= j < ma.units@.len() implies unit_plans_equiv(
            #[trigger] ma.units@[j],
            mb.units@[j],
        ) by {
            let ua = ma.units@[j];
            let ub = mb.units@[j];
            assert forall|k: int| 0 <= k < ua.exercises@.len() implies exercise_plans_equiv(
                #[trigger] ua.exercises@[k],
                ub.exercises@[k],
            ) by {
                let ea = ua.exercises@[k];
                let eb = ub.exercises@[k];
                assert(copies_equiv(ea.copies@, eb.copies@));
            }
        }
    }
    assert forall|i: int| 0 <= i < p1.book.chapters@.len() implies {
        let ca = #[trigger] p1.book.chapters@[i];
        let cb = p2.book.chapters@[i];
        ca.title@ == cb.title@ && ca.sections@.len() == cb.sections@.len() && forall|j: int|
            0 <= j < ca.sections@.len() ==> {
                let sa = #[trigger] ca.sections@[j];
                let sb = cb.sections@[j];
                sa.title@ == sb.title@ && sa.subsections@.len() == sb.subsections@.len()
                    && forall|k: int|
                    0 <= k < sa.subsections@.len() ==> (#[trigger] sa.subsections@[k]).title@
                        == sb.subsections@[k].title@ && sa.subsections@[k].content_path@
                        == sb.subsections@[k].content_path@
            }
    } by {
        let ca = p1.book.chapters@[i];
        let cb = p2.book.chapters@[i];
        assert(module_plans_equiv(p1.modules@[i], p2.modules@[i]));
        assert forall|j: int| 0 <= j < ca.sections@.len() implies {
            let sa = #[trigger] ca.sections@[j];
            let sb = cb.sections@[j];
            sa.title@ == sb.title@ && sa.subsections@.len() == sb.subsections@.len() && forall|
                k: int,
            |
                0 <= k < sa.subsections@.len() ==> (#[trigger] sa.subsections@[k]).title@
                    == sb.subsections@[k].title@ && sa.subsections@[k].content_path@
                    == sb.subsections@[k].content_path@
        } by {
            let sa = ca.sections@[j];
            let sb = cb.sections@[j];
            assert(unit_plans_equiv(p1.modules@[i].units@[j], p2.modules@[i].units@[j]));
            assert forall|k: int| 0 <= k < sa.subsections@.len() implies (
            #[trigger] sa.subsections@[k]).title@ == sb.subsections@[k].title@
                && sa.subsections@[k].content_path@ == sb.subsections@[k].content_path@ by {
                assert(exercise_plans_equiv(
                    p1.modules@[i].units@[j].exercises@[k],
                    p2.modules@[i].units@[j].exercises@[k],
                ));
            }
        }
    }
}

proof fn lemma_filter_elem_from<A>(s: Seq<A>, pred: spec_fn(A) -> bool, k: int)
    requires
        0 <= k < s.filter(pred).len(),
    ensures
        s.contains(s.filter(pred)[k]),
    decreases s.len(),
{
    reveal(Seq::filter);
    if s.len() > 0 {
        let sub = s.drop_last().filter(pred);
        if pred(s.last()) && k == sub.len() {
            assert(s.filter(pred)[k] == s.last());
            assert(s[s.len() - 1] == s.last());
        } else {
            lemma_filter_elem_from(s.drop_last(), pred, k);
            let i = choose|i: int|
                0 <= i < s.drop_last().len() && s.drop_last()[i] == s.filter(pred)[k];
            assert(s[i] == s.filter(pred)[k]);
        }
    }
}

/// Law: selection is exactly the glob-matched set. Every selected file
/// comes from the listing and matches an include glob, and every listed
/// file that matches an include glob is selected.
pub proof fn lemma_selection_exact(
    exdir: Seq<char>,
    includes: Seq<String>,
    files: Seq<String>,
    sel: Seq<String>,
)
    requires
        sel == files.filter(|f: String| file_selected(exdir, includes, f@)),
    ensures
        forall|k: int|
            0 <= k < sel.len() ==> file_selected(exdir, includes, (#[trigger] sel[k])@)
                && files.contains(sel[k]),
        forall|k: int|
            0 <= k < files.len() && file_selected(exdir, includes, (#[trigger] files[k])@)
                ==> sel.contains(files[k]),
{
    broadcast use group_seq_properties, group_filter_ensures;

    let pred = |f: String| file_selected(exdir, includes, f@);
    assert forall|k: int| 0 <= k < sel.len() implies file_selected(
        exdir,
        includes,
        (#[trigger] sel[k])@,
    ) && files.contains(sel[k]) by {
        assert(pred(sel[k]));
        lemma_filter_elem_from(files, pred, k);
    }
}


proof fn lemma_replace_none(s: Seq<char>, pat: Seq<char>, rep: Seq<char>)
    requires
        pat.len() > 0,
        forall|i: int| !matches_at(s, i, pat),
    ensures
        replace_all_spec(s, pat, rep) == s,
    decreases s.len(),
{
    if s.len() >= pat.len() {
        assert(!matches_at(s, 0, pat));
        assert(s.subrange(0, pat.len() as int) != pat);
        assert forall|i: int| !matches_at(s.skip(1), i, pat) by {
            if matches_at(s.skip(1), i, pat) {
                assert(s.skip(1).subrange(i, i + pat.len()) =~= s.subrange(i + 1, i + 1 + pat.len()));
                assert(matches_at(s, i + 1, pat));
            }
        }
        lemma_replace_none(s.skip(1), pat, rep);
        assert(seq![s[0]] + s.skip(1) =~= s);
    }
}

/// Law: substituting a pattern that occurs exactly once splices the
/// replacement between the surrounding text: when `pat` occurs in
/// `pre + pat + post` only at position `pre.len()`, the substitution
/// yields `pre + rep + post`.
pub proof fn lemma_replace_single(pre: Seq<char>, pat: Seq<char>, post: Seq<char>, rep: Seq<char>)
    requires
        pat.len() > 0,
        forall|i: int| i != pre.len() ==> !matches_at(pre + pat + post, i, pat),
    ensures
        replace_all_spec(pre + pat + post, pat, rep) == pre + rep + post,
    decreases pre.len(),
{
    let s = pre + pat + post;
    if pre.len() == 0 {
        assert(s.subrange(0, pat.len() as int) =~= pat);
        assert(s.skip(pat.len() as int) =~= post);
        assert forall|i: int| !matches_at(post, i, pat) by {
            if matches_at(post, i, pat) {
                assert(post.subrange(i, i + pat.len()) =~= s.subrange(
                    i + pat.len(),
                    i + pat.len() + pat.len(),
                ));
                assert(matches_at(s, i + pat.len(), pat));
            }
        }
        lemma_replace_none(post, pat, rep);
        assert(rep + post =~= pre + rep + post);
    } else {
        assert(!matches_at(s, 0, pat));
        assert(s.len() >= pat.len());
        assert(s.subrange(0, pat.len() as int) != pat);
        let s1 = pre.skip(1) + pat + post;
        assert(s.skip(1) =~= s1);
        assert forall|i: int| i != pre.skip(1).len() implies !matches_at(s1, i, pat) by {
            if matches_at(s1, i, pat) {
                assert(s1.subrange(i, i + pat.len()) =~= s.subrange(i + 1, i + 1 + pat.len()));
                assert(matches_at(s, i + 1, pat));
            }
        }
        lemma_replace_single(pre.skip(1), pat, post, rep);
        assert(s[0] == pre[0]);
        assert(seq![s[0]] + (pre.skip(1) + rep + post) =~= pre + rep + post);
    }
}

/// The horizontal-rule piece one topic contributes to the content
/// aggregate.
pub open spec fn topic_piece(t: LoadedTopic) -> Seq<char> {
    "---\n\n"@ + trim_spec(t.slides@) + "\n"@
}

proof fn lemma_content_agg_snoc(topics: Seq<LoadedTopic>, t: int)
    requires
        0 <= t < topics.len(),
    ensures
        content_agg_spec(topics.subrange(0, t + 1)) == content_agg_spec(topics.subrange(0, t))
            + topic_piece(topics[t]),
{
    assert(topics.subrange(0, t + 1).drop_last() =~= topics.subrange(0, t));
    assert(topics.subrange(0, t + 1).last() == topics[t]);
}

proof fn lemma_content_agg_prefix(topics: Seq<LoadedTopic>, t: int)
    requires
        0 <= t <= topics.len(),
    ensures
        content_agg_spec(topics.subrange(0, t)).len() <= content_agg_spec(topics).len(),
        content_agg_spec(topics).subrange(0, content_agg_spec(topics.subrange(0, t)).len() as int)
            == content_agg_spec(topics.subrange(0, t)),
    decreases topics.len() - t,
{
    if t == topics.len() {
        assert(topics.subrange(0, t) =~= topics);
        assert(content_agg_spec(topics).subrange(0, content_agg_spec(topics).len() as int)
            =~= content_agg_spec(topics));
    } else {
        lemma_content_agg_snoc(topics, t);
        lemma_content_agg_prefix(topics, t + 1);
        let full = content_agg_spec(topics);
        let a = content_agg_spec(topics.subrange(0, t));
        let b = content_agg_spec(topics.subrange(0, t + 1));
        assert(full.subrange(0, b.len() as int) == b);
        assert(full.subrange(0, a.len() as int) =~= b.subrange(0, a.len() as int));
        assert(b.subrange(0, a.len() as int) =~= a);
    }
}

/// Law: the content aggregate holds every topic's trimmed slide text in
/// declaration order, each preceded by the horizontal-rule marker: the
/// pieces stand at increasing offsets, and each piece is read back intact
/// from the aggregate.
pub proof fn lemma_content_agg_structure(topics: Seq<LoadedTopic>, i: int)
    requires
        0 <= i < topics.len(),
    ensures
        content_agg_spec(topics.subrange(0, i)).len() + topic_piece(topics[i]).len()
            == content_agg_spec(topics.subrange(0, i + 1)).len(),
        content_agg_spec(topics.subrange(0, i + 1)).len() <= content_agg_spec(topics).len(),
        content_agg_spec(topics).subrange(
            content_agg_spec(topics.subrange(0, i)).len() as int,
            content_agg_spec(topics.subrange(0, i + 1)).len() as int,
        ) == topic_piece(topics[i]),
{
    lemma_content_agg_snoc(topics, i);
    lemma_content_agg_prefix(topics, i + 1);
    let full = content_agg_spec(topics);
    let a = content_agg_spec(topics.subrange(0, i));
    let b = content_agg_spec(topics.subrange(0, i + 1));
    assert(full.subrange(0, b.len() as int) == b);
    assert(full.subrange(a.len() as int, b.len() as int) =~= b.subrange(
        a.len() as int,
        b.len() as int,
    ));
    assert(b.subrange(a.len() as int, b.len() as int) =~= topic_piece(topics[i]));
}

/// Law: a unit template whose content marker stands exactly once renders
/// with the whole content aggregate spliced in its place, so the rendered
/// document contains every topic's trimmed slide text in declaration
/// order with no loss or reordering.
pub proof fn lemma_slides_contain_topics(topics: Seq<LoadedTopic>, pre: Seq<char>, post: Seq<char>)
    requires
        forall|i: int| i != pre.len() ==> !matches_at(pre + content_marker() + post, i, content_marker()),
    ensures
        replace_all_spec(pre + content_marker() + post, content_marker(), content_agg_spec(topics))
            == pre + content_agg_spec(topics) + post,
{
    reveal_strlit("#[modmod:content]\n");
    assert(content_marker().len() > 0);
    lemma_replace_single(pre, content_marker(), post, content_agg_spec(topics));
}

} // verus!
