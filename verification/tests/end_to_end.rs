use modmod::errors::Error;
use modmod::types::{
    exercise_description_md, topic_slides_md, unit_template_md, Exercise, ExerciseFiles,
    LoadedModule, LoadedTopic, LoadedUnit, Module, PathTo, Topic, Track, Unit,
};

fn sample_module() -> LoadedModule {
    let topic1 = Topic {
        name: "First Topic".to_string(),
        dependencies: Vec::new(),
        exercises: Vec::new(),
        summary: Vec::new(),
        objectives: vec!["A".to_string()],
        content: topic_slides_md(),
        further_reading: Vec::new(),
    };
    let exercise = Exercise {
        name: "Practice".to_string(),
        path: "practice".to_string(),
        description: exercise_description_md(),
        includes: vec!["*.txt".to_string()],
    };
    let topic2 = Topic {
        name: "Second Topic".to_string(),
        dependencies: Vec::new(),
        exercises: vec![exercise],
        summary: vec!["B".to_string()],
        objectives: Vec::new(),
        content: topic_slides_md(),
        further_reading: Vec::new(),
    };
    let module = Module {
        units: vec![make_unit()],
        name: "The Module".to_string(),
        description: "demo".to_string(),
    };
    let loaded_unit = LoadedUnit {
        unit: make_unit(),
        template:
            "# Slides\n#[modmod:content]\n## Objectives\n#[modmod:objectives]\n## Summary\n#[modmod:summary]\n"
                .to_string(),
        topics: vec![
            LoadedTopic {
                topic: PathTo { data: topic1, path: "/course/topics/t1.toml".to_string() },
                slides: "Topic one slides\n".to_string(),
                exercise_files: Vec::new(),
            },
            LoadedTopic {
                topic: PathTo { data: topic2, path: "/course/topics/t2.toml".to_string() },
                slides: "Topic two slides".to_string(),
                exercise_files: vec![ExerciseFiles {
                    files: vec![
                        "/course/topics/practice/notes.txt".to_string(),
                        "/course/topics/practice/skip.md".to_string(),
                    ],
                }],
            },
        ],
    };
    LoadedModule {
        module: PathTo { data: module, path: "/course/modules/m.toml".to_string() },
        units: vec![loaded_unit],
    }
}

fn make_unit() -> Unit {
    Unit {
        name: "The Unit".to_string(),
        template: unit_template_md(),
        topics: vec!["topics/t1.toml".to_string(), "topics/t2.toml".to_string()],
    }
}

#[test]
fn end_to_end_plan() {
    let modules = vec![sample_module()];
    let out = "/out".to_string();
    let plan = Track::render(&modules, &out, true, false).unwrap();
    assert!(plan.clear_first);
    assert_eq!(plan.output_dir, "/out");
    assert_eq!(plan.modules.len(), 1);
    let m = &plan.modules[0];
    assert_eq!(m.tag, "01-the-module");
    assert_eq!(m.dir, "/out/01-the-module");
    assert_eq!(m.units.len(), 1);
    let u = &m.units[0];
    assert_eq!(u.tag, "01-the-unit");
    assert_eq!(u.dir, "/out/01-the-module/01-the-unit");
    assert_eq!(u.slides_path, "/out/01-the-module/01-the-unit/slides.md");
    assert_eq!(u.exercises_dir, "/out/01-the-module/01-the-unit/exercises");
    let expected_slides = "# Slides\n---\n\nTopic one slides\n---\n\nTopic two slides\n## Objectives\n- A\n\n## Summary\n- B\n\n";
    assert_eq!(u.slides_content, expected_slides);
    assert_eq!(u.exercises.len(), 1);
    let e = &u.exercises[0];
    assert_eq!(e.tag, "01-practice");
    assert_eq!(e.dir, "/out/01-the-module/01-the-unit/exercises/01-practice");
    assert_eq!(e.source_dir, "/course/topics/practice");
    assert_eq!(e.description_path, "/course/topics/practice/description.md");
    assert_eq!(e.copies.len(), 1);
    assert_eq!(e.copies[0].from, "/course/topics/practice/notes.txt");
    assert_eq!(
        e.copies[0].to,
        "/out/01-the-module/01-the-unit/exercises/01-practice/notes.txt"
    );
    let book = &plan.book;
    assert_eq!(book.chapters.len(), 1);
    assert_eq!(book.chapters[0].title, "The Module");
    assert_eq!(book.chapters[0].sections.len(), 1);
    assert_eq!(book.chapters[0].sections[0].title, "The Unit");
    assert_eq!(book.chapters[0].sections[0].subsections.len(), 1);
    assert_eq!(book.chapters[0].sections[0].subsections[0].title, "Practice");
    assert_eq!(
        book.chapters[0].sections[0].subsections[0].content_path,
        "/course/topics/practice/description.md"
    );
}

#[test]
fn plan_is_deterministic() {
    let out = "/out".to_string();
    let p1 = Track::render(&vec![sample_module()], &out, true, false).unwrap();
    let p2 = Track::render(&vec![sample_module()], &out, true, false).unwrap();
    assert_eq!(p1.modules.len(), p2.modules.len());
    let u1 = &p1.modules[0].units[0];
    let u2 = &p2.modules[0].units[0];
    assert_eq!(u1.slides_content, u2.slides_content);
    assert_eq!(u1.slides_path, u2.slides_path);
    assert_eq!(u1.exercises[0].copies[0].to, u2.exercises[0].copies[0].to);
}

#[test]
fn nonempty_output_without_clear_fails_first() {
    let out = "/out".to_string();
    match Track::render(&Vec::new(), &out, false, true) {
        Err(Error::NotEmpty) => {}
        _ => panic!("a non-empty output directory without the clear flag must be refused"),
    }
}

#[test]
fn empty_output_without_clear_is_accepted() {
    let out = "/out".to_string();
    let plan = Track::render(&Vec::new(), &out, false, false).unwrap();
    assert!(!plan.clear_first);
    assert!(plan.modules.is_empty());
    assert!(plan.book.chapters.is_empty());
}
