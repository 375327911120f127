//! The build planner: the whole rendering pipeline as a pure computation.
//! Given the loaded hierarchy — every config record paired with its file
//! path, every slide and template text, and every exercise's file listing —
//! it validates the output directory request and produces the exact tree
//! of directories, rendered documents and file copies to put on disk,
//! together with the navigation structure for the book-rendering engine.
use vstd::prelude::*;
use crate::aggregate::{
    aggregate_topics, content_agg_spec, objectives_agg_spec, summary_agg_spec,
};
use crate::book::{Book, Chapter, Section, Subsection};
use crate::errors::Error;
use crate::globmatch::{all_globs_ok, file_selected, glob_pattern_ok, select_files};
use crate::paths::{
    has_dir_prefix, is_under_dir, join, join_spec, parent_dir, parent_dir_spec, strip_dir_prefix,
    strip_under_dir,
};
use crate::tag::{numbered_tag_spec, to_numbered_tag};
use crate::template::{render_template, render_template_spec};
use crate::types::{Exercise, LoadedModule, LoadedTopic, LoadedUnit, Track};

verus! {

/// One file copy: a source file and its destination.
pub struct FileCopy {
    pub from: String,
    pub to: String,
}

/// The planned output of one exercise: its tagged directory under the
/// unit's `exercises` directory and the copies that populate it.
pub struct ExercisePlan {
    pub name: String,
    pub tag: String,
    pub dir: String,
    pub source_dir: String,
    pub description_path: String,
    pub copies: Vec<FileCopy>,
}

/// The planned output of one unit: its tagged directory, the rendered
/// slide document, and its exercises.
pub struct UnitPlan {
    pub name: String,
    pub tag: String,
    pub dir: String,
    pub slides_path: String,
    pub slides_content: String,
    pub exercises_dir: String,
    pub exercises: Vec<ExercisePlan>,
}

/// The planned output of one module: its tagged directory and its units.
pub struct ModulePlan {
    pub name: String,
    pub tag: String,
    pub dir: String,
    pub units: Vec<UnitPlan>,
}

/// The whole planned build: whether to clear the output directory first,
/// the module tree to write, and the book to hand to the rendering engine.
pub struct RenderPlan {
    pub output_dir: String,
    pub clear_first: bool,
    pub modules: Vec<ModulePlan>,
    pub book: Book,
}

/// The flat exercise inputs of one topic: the directory of the declaring
/// topic file, the exercise record, and its file listing.
pub open spec fn topic_exercises(t: LoadedTopic) -> Seq<(Seq<char>, Exercise, Seq<String>)> {
    Seq::new(
        t.topic.data.exercises@.len(),
        |k: int|
            (parent_dir_spec(t.topic.path@), t.topic.data.exercises@[k], t.exercise_files@[k].files@),
    )
}

/// The exercises of a unit's topics, flattened in declaration order; the
/// 1-based position in this sequence is the exercise's tag number.
pub open spec fn flat_exercises(topics: Seq<LoadedTopic>) -> Seq<(Seq<char>, Exercise, Seq<String>)>
    decreases topics.len(),
{
    if topics.len() == 0 {
        Seq::empty()
    } else {
        flat_exercises(topics.drop_last()) + topic_exercises(topics.last())
    }
}

/// Validity of a loaded topic: one file listing per exercise.
pub open spec fn topic_loaded_ok(t: LoadedTopic) -> bool {
    t.exercise_files@.len() == t.topic.data.exercises@.len()
}

/// Validity of a loaded unit: valid topics, and few enough exercises for
/// their 1-based numbers to fit the machine.
pub open spec fn unit_loaded_ok(u: LoadedUnit) -> bool {
    &&& forall|i: int| 0 <= i < u.topics@.len() ==> topic_loaded_ok(#[trigger] u.topics@[i])
    &&& flat_exercises(u.topics@).len() < usize::MAX
}

/// Validity of a loaded module.
pub open spec fn module_loaded_ok(m: LoadedModule) -> bool {
    forall|j: int| 0 <= j < m.units@.len() ==> unit_loaded_ok(#[trigger] m.units@[j])
}

/// Validity of the whole loaded hierarchy.
pub open spec fn modules_loaded_ok(ms: Seq<LoadedModule>) -> bool {
    forall|i: int| 0 <= i < ms.len() ==> module_loaded_ok(#[trigger] ms[i])
}

/// The selected files of one flat exercise input: its listing filtered by
/// the resolved include globs.
pub open spec fn selected_of(e: (Seq<char>, Exercise, Seq<String>)) -> Seq<String> {
    e.2.filter(|f: String| file_selected(join_spec(e.0, e.1.path@), e.1.includes@, f@))
}

/// Whether one exercise can be planned: every include pattern compiles,
/// and every selected file lies under the exercise directory.
pub open spec fn exercise_ok(e: (Seq<char>, Exercise, Seq<String>)) -> bool {
    &&& all_globs_ok(join_spec(e.0, e.1.path@), e.1.includes@)
    &&& forall|k: int|
        0 <= k < selected_of(e).len() ==> has_dir_prefix(
            join_spec(e.0, e.1.path@),
            #[trigger] selected_of(e)[k]@,
        )
}

/// Whether every exercise of a unit can be planned.
pub open spec fn unit_ok(u: LoadedUnit) -> bool {
    forall|k: int|
        0 <= k < flat_exercises(u.topics@).len() ==> exercise_ok(
            #[trigger] flat_exercises(u.topics@)[k],
        )
}

/// Whether every unit of a module can be planned.
pub open spec fn module_ok(m: LoadedModule) -> bool {
    forall|j: int| 0 <= j < m.units@.len() ==> unit_ok(#[trigger] m.units@[j])
}

/// Whether the whole hierarchy can be planned.
pub open spec fn modules_ok(ms: Seq<LoadedModule>) -> bool {
    forall|i: int| 0 <= i < ms.len() ==> module_ok(#[trigger] ms[i])
}

/// What a planning error says of one flat exercise input: an InvalidGlob
/// pattern is one of the exercise's resolved include patterns and does
/// not compile, and an InvalidPath path is one of its selected files and
/// lies outside the exercise directory. No other variant arises from
/// planning an exercise.
pub open spec fn error_of_exercise(err: Error, e: (Seq<char>, Exercise, Seq<String>)) -> bool {
    match err {
        Error::InvalidGlob { pattern } => !glob_pattern_ok(pattern@) && exists|k: int|
            0 <= k < e.1.includes@.len() && pattern@ == join_spec(
                join_spec(e.0, e.1.path@),
                #[trigger] e.1.includes@[k]@,
            ),
        Error::InvalidPath { path } => !has_dir_prefix(join_spec(e.0, e.1.path@), path@)
            && selected_of(e).contains(path),
        _ => false,
    }
}

/// What a planning error says of a unit: it describes one of the unit's
/// exercises.
pub open spec fn error_of_unit(err: Error, u: LoadedUnit) -> bool {
    exists|k: int|
        0 <= k < flat_exercises(u.topics@).len() && error_of_exercise(
            err,
            #[trigger] flat_exercises(u.topics@)[k],
        )
}

/// What a planning error says of a module: it describes an exercise of
/// one of the module's units.
pub open spec fn error_of_module(err: Error, m: LoadedModule) -> bool {
    exists|j: int| 0 <= j < m.units@.len() && error_of_unit(err, #[trigger] m.units@[j])
}

/// What a planning error says of the hierarchy: it describes an exercise
/// of one of its modules.
pub open spec fn error_of_modules(err: Error, ms: Seq<LoadedModule>) -> bool {
    exists|i: int| 0 <= i < ms.len() && error_of_module(err, #[trigger] ms[i])
}

/// The copies of an exercise plan: exactly the glob-selected files of the
/// listing, in listing order, each sent to the destination directory under
/// its path relative to the exercise directory.
pub open spec fn copies_match(
    copies: Seq<FileCopy>,
    dest: Seq<char>,
    exdir: Seq<char>,
    includes: Seq<String>,
    files: Seq<String>,
) -> bool {
    let sel = files.filter(|f: String| file_selected(exdir, includes, f@));
    &&& copies.len() == sel.len()
    &&& forall|k: int|
        0 <= k < copies.len() ==> (#[trigger] copies[k]).from@ == sel[k]@ && copies[k].to@
            == join_spec(dest, strip_dir_prefix(exdir, sel[k]@))
}

/// What an exercise plan says, given its flat input and 1-based number.
pub open spec fn exercise_plan_matches(
    p: ExercisePlan,
    e: (Seq<char>, Exercise, Seq<String>),
    exercises_dir: Seq<char>,
    index: int,
) -> bool {
    &&& p.name@ == e.1.name@
    &&& p.tag@ == numbered_tag_spec(e.1.name@, index)
    &&& p.dir@ == join_spec(exercises_dir, p.tag@)
    &&& p.source_dir@ == join_spec(e.0, e.1.path@)
    &&& p.description_path@ == join_spec(p.source_dir@, e.1.description@)
    &&& copies_match(p.copies@, p.dir@, p.source_dir@, e.1.includes@, e.2)
}

/// What a unit plan says, given its loaded unit and 1-based number.
pub open spec fn unit_plan_matches(
    p: UnitPlan,
    u: LoadedUnit,
    module_dir: Seq<char>,
    index: int,
) -> bool {
    &&& p.name@ == u.unit.name@
    &&& p.tag@ == numbered_tag_spec(u.unit.name@, index)
    &&& p.dir@ == join_spec(module_dir, p.tag@)
    &&& p.slides_path@ == join_spec(p.dir@, "slides.md"@)
    &&& p.slides_content@ == render_template_spec(
        u.template@,
        content_agg_spec(u.topics@),
        objectives_agg_spec(u.topics@),
        summary_agg_spec(u.topics@),
    )
    &&& p.exercises_dir@ == join_spec(p.dir@, "exercises"@)
    &&& p.exercises@.len() == flat_exercises(u.topics@).len()
    &&& forall|k: int|
        0 <= k < p.exercises@.len() ==> exercise_plan_matches(
            #[trigger] p.exercises@[k],
            flat_exercises(u.topics@)[k],
            p.exercises_dir@,
            k + 1,
        )
}

/// What a module plan says, given its loaded module and 1-based number.
pub open spec fn module_plan_matches(
    p: ModulePlan,
    m: LoadedModule,
    output_dir: Seq<char>,
    index: int,
) -> bool {
    &&& p.name@ == m.module.data.name@
    &&& p.tag@ == numbered_tag_spec(m.module.data.name@, index)
    &&& p.dir@ == join_spec(output_dir, p.tag@)
    &&& p.units@.len() == m.units@.len()
    &&& forall|j: int|
        0 <= j < p.units@.len() ==> unit_plan_matches(
            #[trigger] p.units@[j],
            m.units@[j],
            p.dir@,
            j + 1,
        )
}

/// What the book says of a planned module tree: chapters, sections and
/// subsections mirror modules, units and exercises, in order, and each
/// subsection carries the exercise's description file.
pub open spec fn book_matches(b: Book, modules: Seq<ModulePlan>) -> bool {
    &&& b.chapters@.len() == modules.len()
    &&& forall|i: int|
        0 <= i < modules.len() ==> chapter_matches(#[trigger] b.chapters@[i], modules[i])
}

/// What a chapter says of its planned module.
pub open spec fn chapter_matches(c: Chapter, m: ModulePlan) -> bool {
    &&& c.title@ == m.name@
    &&& c.sections@.len() == m.units@.len()
    &&& forall|j: int|
        0 <= j < m.units@.len() ==> section_matches(#[trigger] c.sections@[j], m.units@[j])
}

/// What a section says of its planned unit.
pub open spec fn section_matches(s: Section, u: UnitPlan) -> bool {
    &&& s.title@ == u.name@
    &&& s.subsections@.len() == u.exercises@.len()
    &&& forall|k: int|
        0 <= k < u.exercises@.len() ==> (#[trigger] s.subsections@[k]).title@
            == u.exercises@[k].name@ && s.subsections@[k].content_path@
            == u.exercises@[k].description_path@
}

/// What the whole plan says.
pub open spec fn render_plan_matches(
    p: RenderPlan,
    modules: Seq<LoadedModule>,
    output_dir: Seq<char>,
    clear_output: bool,
) -> bool {
    &&& p.output_dir@ == output_dir
    &&& p.clear_first == clear_output
    &&& p.modules@.len() == modules.len()
    &&& forall|i: int|
        0 <= i < modules.len() ==> module_plan_matches(
            #[trigger] p.modules@[i],
            modules[i],
            output_dir,
            i + 1,
        )
    &&& book_matches(p.book, p.modules@)
}

proof fn lemma_flat_snoc(topics: Seq<LoadedTopic>, t: int)
    requires
        0 <= t < topics.len(),
    ensures
        flat_exercises(topics.subrange(0, t + 1)) == flat_exercises(topics.subrange(0, t))
            + topic_exercises(topics[t]),
{
    assert(topics.subrange(0, t + 1).drop_last() =~= topics.subrange(0, t));
    assert(topics.subrange(0, t + 1).last() == topics[t]);
}

proof fn lemma_flat_prefix(topics: Seq<LoadedTopic>, t: int)
    requires
        0 <= t <= topics.len(),
    ensures
        flat_exercises(topics.subrange(0, t)).len() <= flat_exercises(topics).len(),
        forall|k: int|
            0 <= k < flat_exercises(topics.subrange(0, t)).len() ==> flat_exercises(
                topics.subrange(0, t),
            )[k] == flat_exercises(topics)[k],
    decreases topics.len() - t,
{
    if t == topics.len() {
        assert(topics.subrange(0, t) =~= topics);
    } else {
        lemma_flat_snoc(topics, t);
        lemma_flat_prefix(topics, t + 1);
    }
}

/// Plans one exercise: resolves its source directory against the
/// declaring topic file's directory, numbers and tags it, selects the
/// glob-matched files, and routes each under the tagged output directory
/// by its path relative to the source directory.
pub fn plan_exercise(
    topic_dir: &String,
    ex: &Exercise,
    files: &Vec<String>,
    exercises_dir: &String,
    index: usize,
) -> (r: Result<ExercisePlan, Error>)
    ensures
        r is Ok <==> exercise_ok((topic_dir@, *ex, files@)),
        r matches Ok(p) ==> exercise_plan_matches(
            p,
            (topic_dir@, *ex, files@),
            exercises_dir@,
            index as int,
        ),
        r matches Err(e) ==> (e is InvalidGlob || e is InvalidPath),
        r matches Err(e) ==> error_of_exercise(e, (topic_dir@, *ex, files@)),
{
    let ghost einput = (topic_dir@, *ex, files@);
    let source_dir = join(topic_dir.as_str(), ex.path.as_str());
    let tag = to_numbered_tag(ex.name.as_str(), index);
    let dir = join(exercises_dir.as_str(), tag.as_str());
    let description_path = join(source_dir.as_str(), ex.description.as_str());
    let sel = match select_files(&source_dir, &ex.includes, files) {
        Ok(sel) => sel,
        Err(e) => {
            return Err(e);
        },
    };
    proof {
        assert(sel@ == selected_of(einput));
    }
    let n = sel.len();
    let mut copies: Vec<FileCopy> = Vec::new();
    let mut k: usize = 0;
    while k < n
        invariant
            0 <= k <= n,
            n == sel@.len(),
            einput == (topic_dir@, *ex, files@),
            sel@ == selected_of(einput),
            source_dir@ == join_spec(einput.0, einput.1.path@),
            dir@ == join_spec(exercises_dir@, tag@),
            copies@.len() == k,
            forall|t: int|
                0 <= t < k ==> has_dir_prefix(source_dir@, #[trigger] sel@[t]@),
            forall|t: int|
                0 <= t < k ==> (#[trigger] copies@[t]).from@ == sel@[t]@ && copies@[t].to@
                    == join_spec(dir@, strip_dir_prefix(source_dir@, sel@[t]@)),
        decreases n - k,
    {
        let f = &sel[k];
        if !is_under_dir(source_dir.as_str(), f.as_str()) {
            proof {
                assert(!has_dir_prefix(
                    join_spec(einput.0, einput.1.path@),
                    selected_of(einput)[k as int]@,
                ));
                assert(!exercise_ok(einput));
                assert(selected_of(einput)[k as int] == *f);
                assert(selected_of(einput).contains(*f));
            }
            return Err(Error::InvalidPath { path: f.clone() });
        }
        let rel = strip_under_dir(source_dir.as_str(), f.as_str());
        let to = join(dir.as_str(), rel.as_str());
        copies.push(FileCopy { from: f.clone(), to });
        k = k + 1;
    }
    Ok(
        ExercisePlan {
            name: ex.name.clone(),
            tag,
            dir,
            source_dir,
            description_path,
            copies,
        },
    )
}

/// Plans one unit: numbers and tags it, renders its slide document from
/// the template and the three aggregates, and plans its exercises with
/// 1-based numbers running across the unit's topics in declaration order.
pub fn plan_unit(u: &LoadedUnit, module_dir: &String, index: usize) -> (r: Result<UnitPlan, Error>)
    requires
        unit_loaded_ok(*u),
    ensures
        r is Ok <==> unit_ok(*u),
        r matches Ok(p) ==> unit_plan_matches(p, *u, module_dir@, index as int),
        r matches Err(e) ==> (e is InvalidGlob || e is InvalidPath),
        r matches Err(e) ==> error_of_unit(e, *u),
{
    let tag = to_numbered_tag(u.unit.name.as_str(), index);
    let dir = join(module_dir.as_str(), tag.as_str());
    let slides_path = join(dir.as_str(), "slides.md");
    let exercises_dir = join(dir.as_str(), "exercises");
    let agg = aggregate_topics(&u.topics);
    let slides_content = render_template(
        u.template.as_str(),
        agg.content.as_str(),
        agg.objectives.as_str(),
        agg.summary.as_str(),
    );
    let ghost flat = flat_exercises(u.topics@);
    let mut exercises: Vec<ExercisePlan> = Vec::new();
    let nt = u.topics.len();
    proof {
        assert(u.topics@.subrange(0, 0) =~= Seq::<LoadedTopic>::empty());
    }
    let mut t: usize = 0;
    while t < nt
        invariant
            0 <= t <= nt,
            nt == u.topics@.len(),
            unit_loaded_ok(*u),
            flat == flat_exercises(u.topics@),
            exercises@.len() == flat_exercises(u.topics@.subrange(0, t as int)).len(),
            exercises@.len() <= flat.len(),
            forall|k: int|
                0 <= k < exercises@.len() ==> flat_exercises(u.topics@.subrange(0, t as int))[k]
                    == flat[k],
            forall|k: int|
                0 <= k < exercises@.len() ==> exercise_ok(#[trigger] flat[k]),
            forall|k: int|
                0 <= k < exercises@.len() ==> exercise_plan_matches(
                    #[trigger] exercises@[k],
                    flat[k],
                    exercises_dir@,
                    k + 1,
                ),
            exercises_dir@ == join_spec(dir@, "exercises"@),
        decreases nt - t,
    {
        let topic = &u.topics[t];
        let topic_dir = parent_dir(topic.topic.path.as_str());
        let ghost base = flat_exercises(u.topics@.subrange(0, t as int));
        proof {
            lemma_flat_snoc(u.topics@, t as int);
            lemma_flat_prefix(u.topics@, t + 1);
        }
        let ne = topic.topic.data.exercises.len();
        let mut e: usize = 0;
        while e < ne
            invariant
                0 <= e <= ne,
                ne == topic.topic.data.exercises@.len(),
                topic == u.topics@[t as int],
                0 <= t < nt,
                nt == u.topics@.len(),
                unit_loaded_ok(*u),
                flat == flat_exercises(u.topics@),
                topic_dir@ == parent_dir_spec(topic.topic.path@),
                base == flat_exercises(u.topics@.subrange(0, t as int)),
                base + topic_exercises(u.topics@[t as int]) == flat_exercises(
                    u.topics@.subrange(0, t + 1),
                ),
                flat_exercises(u.topics@.subrange(0, t + 1)).len() <= flat.len(),
                exercises@.len() == base.len() + e,
                forall|k: int|
                    0 <= k < base.len() + topic_exercises(u.topics@[t as int]).len() ==> (base
                        + topic_exercises(u.topics@[t as int]))[k] == flat[k],
                forall|k: int|
                    0 <= k < exercises@.len() ==> exercise_ok(#[trigger] flat[k]),
                forall|k: int|
                    0 <= k < exercises@.len() ==> exercise_plan_matches(
                        #[trigger] exercises@[k],
                        flat[k],
                        exercises_dir@,
                        k + 1,
                    ),
                exercises_dir@ == join_spec(dir@, "exercises"@),
            decreases ne - e,
        {
            let ghost fe = flat[exercises@.len() as int];
            proof {
                assert(topic_exercises(u.topics@[t as int])[e as int] == (
                    parent_dir_spec(topic.topic.path@),
                    topic.topic.data.exercises@[e as int],
                    topic.exercise_files@[e as int].files@,
                ));
                assert((base + topic_exercises(u.topics@[t as int]))[base.len() + e] == fe);
            }
            let idx = exercises.len();
            let ep = match plan_exercise(
                &topic_dir,
                &topic.topic.data.exercises[e],
                &topic.exercise_files[e].files,
                &exercises_dir,
                idx + 1,
            ) {
                Ok(ep) => ep,
                Err(err) => {
                    proof {
                        assert(!exercise_ok(fe));
                        assert(!unit_ok(*u));
                        assert(error_of_exercise(err, fe));
                        assert(0 <= exercises@.len() < flat_exercises(u.topics@).len());
                        assert(error_of_unit(err, *u));
                    }
                    return Err(err);
                },
            };
            exercises.push(ep);
            e = e + 1;
        }
        t = t + 1;
    }
    proof {
        assert(u.topics@.subrange(0, nt as int) =~= u.topics@);
    }
    Ok(
        UnitPlan {
            name: u.unit.name.clone(),
            tag,
            dir,
            slides_path,
            slides_content,
            exercises_dir,
            exercises,
        },
    )
}

/// Plans one module: numbers and tags it and plans its units in order.
pub fn plan_module(m: &LoadedModule, output_dir: &String, index: usize) -> (r: Result<
    ModulePlan,
    Error,
>)
    requires
        module_loaded_ok(*m),
    ensures
        r is Ok <==> module_ok(*m),
        r matches Ok(p) ==> module_plan_matches(p, *m, output_dir@, index as int),
        r matches Err(e) ==> (e is InvalidGlob || e is InvalidPath),
        r matches Err(e) ==> error_of_module(e, *m),
{
    let tag = to_numbered_tag(m.module.data.name.as_str(), index);
    let dir = join(output_dir.as_str(), tag.as_str());
    let n = m.units.len();
    let mut units: Vec<UnitPlan> = Vec::new();
    let mut j: usize = 0;
    while j < n
        invariant
            0 <= j <= n,
            n == m.units@.len(),
            module_loaded_ok(*m),
            units@.len() == j,
            dir@ == join_spec(output_dir@, tag@),
            forall|k: int| 0 <= k < j ==> unit_ok(#[trigger] m.units@[k]),
            forall|k: int|
                0 <= k < j ==> unit_plan_matches(#[trigger] units@[k], m.units@[k], dir@, k + 1),
        decreases n - j,
    {
        let up = match plan_unit(&m.units[j], &dir, j + 1) {
            Ok(up) => up,
            Err(err) => {
                proof {
                    assert(error_of_unit(err, m.units@[j as int]));
                    assert(error_of_module(err, *m));
                }
                return Err(err);
            },
        };
        units.push(up);
        j = j + 1;
    }
    Ok(ModulePlan { name: m.module.data.name.clone(), tag, dir, units })
}

/// Assembles the navigation tree of a planned module tree.
pub fn assemble_book(modules: &Vec<ModulePlan>) -> (b: Book)
    ensures
        book_matches(b, modules@),
{
    let n = modules.len();
    let mut chapters: Vec<Chapter> = Vec::new();
    let mut i: usize = 0;
    while i < n
        invariant
            0 <= i <= n,
            n == modules@.len(),
            chapters@.len() == i,
            forall|k: int|
                0 <= k < i ==> chapter_matches(#[trigger] chapters@[k], modules@[k]),
        decreases n - i,
    {
        let m = &modules[i];
        let nu = m.units.len();
        let mut sections: Vec<Section> = Vec::new();
        let mut j: usize = 0;
        while j < nu
            invariant
                0 <= j <= nu,
                nu == m.units@.len(),
                m == modules@[i as int],
                sections@.len() == j,
                forall|k: int|
                    0 <= k < j ==> section_matches(#[trigger] sections@[k], m.units@[k]),
            decreases nu - j,
        {
            let u = &m.units[j];
            let ne = u.exercises.len();
            let mut subsections: Vec<Subsection> = Vec::new();
            let mut k: usize = 0;
            while k < ne
                invariant
                    0 <= k <= ne,
                    ne == u.exercises@.len(),
                    u == m.units@[j as int],
                    subsections@.len() == k,
                    forall|q: int|
                        0 <= q < k ==> (#[trigger] subsections@[q]).title@ == u.exercises@[q].name@
                            && subsections@[q].content_path@ == u.exercises@[q].description_path@,
                decreases ne - k,
            {
                let ex = &u.exercises[k];
                subsections.push(
                    Subsection {
                        title: ex.name.clone(),
                        content_path: ex.description_path.clone(),
                    },
                );
                k = k + 1;
            }
            sections.push(Section { title: u.name.clone(), subsections });
            j = j + 1;
        }
        chapters.push(Chapter { title: m.name.clone(), sections });
        i = i + 1;
    }
    Book { chapters }
}

impl Track {
    /// Plans the whole build. The output directory is validated first:
    /// with `clear_output` unset and a non-empty output directory the
    /// build fails with the not-empty error before anything else is
    /// considered. Otherwise every module, unit and exercise is planned in
    /// declaration order and the book is assembled from the result.
    pub fn render(
        modules: &Vec<LoadedModule>,
        output_dir: &String,
        clear_output: bool,
        output_dir_nonempty: bool,
    ) -> (r: Result<RenderPlan, Error>)
        requires
            modules_loaded_ok(modules@),
        ensures
            r is Ok <==> ((clear_output || !output_dir_nonempty) && modules_ok(modules@)),
            !clear_output && output_dir_nonempty ==> r matches Err(Error::NotEmpty),
            clear_output ==> !(r matches Err(Error::NotEmpty)),
            r matches Ok(p) ==> render_plan_matches(p, modules@, output_dir@, clear_output),
            r matches Err(e) ==> (e is NotEmpty || e is InvalidGlob || e is InvalidPath),
            r matches Err(e) ==> (e is NotEmpty || error_of_modules(e, modules@)),
    {
        if !clear_output && output_dir_nonempty {
            return Err(Error::NotEmpty);
        }
        let n = modules.len();
        let mut planned: Vec<ModulePlan> = Vec::new();
        let mut i: usize = 0;
        while i < n
            invariant
                0 <= i <= n,
                n == modules@.len(),
                modules_loaded_ok(modules@),
                clear_output || !output_dir_nonempty,
                planned@.len() == i,
                forall|k: int| 0 <= k < i ==> module_ok(#[trigger] modules@[k]),
                forall|k: int|
                    0 <= k < i ==> module_plan_matches(
                        #[trigger] planned@[k],
                        modules@[k],
                        output_dir@,
                        k + 1,
                    ),
            decreases n - i,
        {
            let mp = match plan_module(&modules[i], output_dir, i + 1) {
                Ok(mp) => mp,
                Err(err) => {
                    proof {
                        assert(clear_output || !output_dir_nonempty);
                        assert(err is InvalidGlob || err is InvalidPath);
                        assert(error_of_module(err, modules@[i as int]));
                        assert(error_of_modules(err, modules@));
                    }
                    return Err(err);
                },
            };
            planned.push(mp);
            i = i + 1;
        }
        let book = assemble_book(&planned);
        Ok(
            RenderPlan {
                output_dir: output_dir.clone(),
                clear_first: clear_output,
                modules: planned,
                book,
            },
        )
    }
}

} // verus!
