use modmod::aggregate::aggregate_topics;
use modmod::errors::Error;
use modmod::globmatch::select_files;
use modmod::paths::{join, parent_dir, strip_under_dir};
use modmod::plan::plan_exercise;
use modmod::tag::to_numbered_tag;
use modmod::template::render_template;
use modmod::textops::{replace_all, trim};
use modmod::types::{
    exercise_description_md, exercise_includes, topic_slides_md, unit_template_md, Exercise,
    ExerciseFiles, LoadedTopic, PathTo, Topic, Track,
};

fn topic(name: &str) -> Topic {
    Topic {
        name: name.to_string(),
        dependencies: Vec::new(),
        exercises: Vec::new(),
        summary: Vec::new(),
        objectives: Vec::new(),
        content: topic_slides_md(),
        further_reading: Vec::new(),
    }
}

#[test]
fn numbered_tag_pads_and_normalizes() {
    assert_eq!(to_numbered_tag("Intro To Rust", 3), "03-intro-to-rust");
    assert_eq!(to_numbered_tag("x", 12), "12-x");
    assert_eq!(to_numbered_tag("Basics", 1), "01-basics");
    assert_eq!(to_numbered_tag("keep-me_2", 7), "07-keep-me_2");
    assert_eq!(to_numbered_tag("n", 123), "123-n");
}

#[test]
fn numbered_tags_of_siblings_differ() {
    let a = to_numbered_tag("Same Name", 1);
    let b = to_numbered_tag("Same Name", 2);
    assert_ne!(a, b);
    assert!(a < b);
}

#[test]
fn join_and_parent_dir() {
    assert_eq!(join("a/b", "c.toml"), "a/b/c.toml");
    assert_eq!(join("a/b/", "c"), "a/b/c");
    assert_eq!(join("a", "/abs/p"), "/abs/p");
    assert_eq!(join("", "rel"), "rel");
    assert_eq!(parent_dir("a/b/c.toml"), "a/b");
    assert_eq!(parent_dir("file.toml"), "");
    assert_eq!(parent_dir("/top.toml"), "/");
}

#[test]
fn strip_prefix_keeps_relative_structure() {
    assert_eq!(strip_under_dir("/course/ex", "/course/ex/src/main.rs"), "src/main.rs");
}

#[test]
fn trim_removes_surrounding_whitespace() {
    assert_eq!(trim("  hello world \n"), "hello world");
    assert_eq!(trim("\t\r\n"), "");
    assert_eq!(trim("inner  space"), "inner  space");
}

#[test]
fn replace_all_is_literal_and_left_to_right() {
    assert_eq!(replace_all("ab#Xcd#Xe", "#X", "-"), "ab-cd-e");
    assert_eq!(replace_all("no marker", "#X", "-"), "no marker");
    assert_eq!(replace_all("aaa", "aa", "b"), "ba");
    assert_eq!(replace_all("x", "xy", "-"), "x");
}

#[test]
fn render_template_substitutes_three_markers() {
    let template = "# Unit\n#[modmod:content]\nGoals\n#[modmod:objectives]\nRecap\n#[modmod:summary]\n";
    let out = render_template(template, "CONTENT\n", "- A\n", "- B\n");
    // the content marker consumes its own newline; the other two do not
    assert_eq!(out, "# Unit\nCONTENT\nGoals\n- A\n\nRecap\n- B\n\n");
}

#[test]
fn render_template_leaves_absent_markers_alone() {
    let out = render_template("plain text", "c", "o", "s");
    assert_eq!(out, "plain text");
}

#[test]
fn render_template_replaces_every_occurrence() {
    let out = render_template("#[modmod:objectives] and #[modmod:objectives]", "c", "O", "s");
    assert_eq!(out, "O and O");
}

#[test]
fn default_file_names() {
    assert_eq!(topic_slides_md(), "slides.md");
    assert_eq!(unit_template_md(), "template.md");
    assert_eq!(exercise_description_md(), "description.md");
    assert_eq!(exercise_includes(), vec!["Cargo.toml", "Cargo.lock", "src/*/**"]);
}

#[test]
fn load_excluded_topics_is_unsupported() {
    let track = Track { name: "t".to_string(), modules: Vec::new(), excluded_topics: Vec::new() };
    match track.load_excluded_topics() {
        Err(Error::Unsupported) => {}
        _ => panic!("excluded topics must be refused"),
    }
}

#[test]
fn load_modules_resolves_against_track_dir() {
    let track = Track {
        name: "t".to_string(),
        modules: vec!["modules/a.toml".to_string(), "/abs/b.toml".to_string()],
        excluded_topics: Vec::new(),
    };
    let at = Track::load(track, "/course/track.toml".to_string());
    let paths = at.load_modules();
    assert_eq!(paths, vec!["/course/modules/a.toml", "/abs/b.toml"]);
}

#[test]
fn load_topics_resolves_against_module_dir() {
    let unit = modmod::types::Unit {
        name: "u".to_string(),
        template: unit_template_md(),
        topics: vec!["topics/t1.toml".to_string(), "topics/t2.toml".to_string()],
    };
    let module = modmod::types::Module {
        units: vec![unit],
        name: "m".to_string(),
        description: "d".to_string(),
    };
    let at = PathTo { data: module, path: "/course/modules/a.toml".to_string() };
    let topics = at.load_topics();
    assert_eq!(
        topics,
        vec![vec![
            "/course/modules/topics/t1.toml".to_string(),
            "/course/modules/topics/t2.toml".to_string(),
        ]]
    );
}

#[test]
fn selection_is_exactly_the_glob_matched_set() {
    let exdir = "/course/topics/ex1".to_string();
    let includes = vec!["*.txt".to_string()];
    let files = vec![
        "/course/topics/ex1/notes.txt".to_string(),
        "/course/topics/ex1/image.png".to_string(),
        "/course/topics/ex1/more.txt".to_string(),
    ];
    let sel = select_files(&exdir, &includes, &files).unwrap();
    assert_eq!(sel, vec!["/course/topics/ex1/notes.txt", "/course/topics/ex1/more.txt"]);
}

#[test]
fn selection_with_no_match_is_empty() {
    let exdir = "/ex".to_string();
    let includes = vec!["*.rs".to_string()];
    let files = vec!["/ex/notes.txt".to_string()];
    let sel = select_files(&exdir, &includes, &files).unwrap();
    assert!(sel.is_empty());
}

#[test]
fn invalid_include_pattern_is_fatal() {
    let exdir = "/ex".to_string();
    let includes = vec!["a[".to_string()];
    let files = vec!["/ex/a".to_string()];
    match select_files(&exdir, &includes, &files) {
        Err(Error::InvalidGlob { pattern }) => assert_eq!(pattern, "/ex/a["),
        _ => panic!("an include pattern that does not compile must be fatal"),
    }
}

#[test]
fn aggregates_follow_declaration_order() {
    let mut t1 = topic("one");
    t1.objectives = vec![" A ".to_string()];
    let mut t2 = topic("two");
    t2.summary = vec!["B".to_string()];
    let loaded = vec![
        LoadedTopic {
            topic: PathTo { data: t1, path: "/c/topics/t1.toml".to_string() },
            slides: " First \n".to_string(),
            exercise_files: Vec::new(),
        },
        LoadedTopic {
            topic: PathTo { data: t2, path: "/c/topics/t2.toml".to_string() },
            slides: "Second".to_string(),
            exercise_files: Vec::new(),
        },
    ];
    let agg = aggregate_topics(&loaded);
    assert_eq!(agg.content, "---\n\nFirst\n---\n\nSecond\n");
    assert_eq!(agg.objectives, "- A\n");
    assert_eq!(agg.summary, "- B\n");
}

#[test]
fn planned_copies_preserve_relative_paths() {
    let ex = Exercise {
        name: "My Exercise".to_string(),
        path: "ex1".to_string(),
        description: exercise_description_md(),
        includes: vec!["**/*.rs".to_string(), "Cargo.toml".to_string()],
    };
    let files = vec![
        "/c/topics/ex1/Cargo.toml".to_string(),
        "/c/topics/ex1/src/main.rs".to_string(),
        "/c/topics/ex1/README.md".to_string(),
    ];
    let topic_dir = "/c/topics".to_string();
    let out = "/out/01-m/01-u/exercises".to_string();
    let plan = plan_exercise(&topic_dir, &ex, &files, &out, 1).unwrap();
    assert_eq!(plan.tag, "01-my-exercise");
    assert_eq!(plan.dir, "/out/01-m/01-u/exercises/01-my-exercise");
    assert_eq!(plan.source_dir, "/c/topics/ex1");
    assert_eq!(plan.description_path, "/c/topics/ex1/description.md");
    let pairs: Vec<(String, String)> =
        plan.copies.into_iter().map(|c| (c.from, c.to)).collect();
    assert_eq!(
        pairs,
        vec![
            (
                "/c/topics/ex1/Cargo.toml".to_string(),
                "/out/01-m/01-u/exercises/01-my-exercise/Cargo.toml".to_string(),
            ),
            (
                "/c/topics/ex1/src/main.rs".to_string(),
                "/out/01-m/01-u/exercises/01-my-exercise/src/main.rs".to_string(),
            ),
        ]
    );
}

#[test]
fn listed_file_outside_exercise_dir_is_fatal() {
    let ex = Exercise {
        name: "e".to_string(),
        path: "ex1".to_string(),
        description: exercise_description_md(),
        includes: vec!["/**".to_string()],
    };
    let files = vec!["/elsewhere/notes.txt".to_string()];
    let topic_dir = "/c/topics".to_string();
    let out = "/out/ex".to_string();
    match plan_exercise(&topic_dir, &ex, &files, &out, 1) {
        Err(Error::InvalidPath { path }) => assert_eq!(path, "/elsewhere/notes.txt"),
        _ => panic!("a listed file outside the exercise directory must be fatal"),
    }
}

#[test]
fn error_messages_name_the_input() {
    assert_eq!(Error::NotEmpty.message(), "output directory is not empty");
    assert_eq!(Error::Unsupported.message(), "excluded topics are not supported");
    assert_eq!(
        Error::InvalidGlob { pattern: "p[".to_string() }.message(),
        "invalid include pattern: p["
    );
    assert_eq!(
        Error::InvalidPath { path: "/a".to_string() }.message(),
        "file lies outside its exercise directory: /a"
    );
    assert_eq!(
        Error::Load { path: "/t.toml".to_string() }.message(),
        "cannot load config file: /t.toml"
    );
    assert_eq!(Error::Io { message: "denied".to_string() }.message(), "filesystem error: denied");
}

#[test]
fn exercise_files_align_with_exercises() {
    let e = ExerciseFiles { files: vec!["/a/b".to_string()] };
    assert_eq!(e.files.len(), 1);
}

#[test]
fn normalization_keeps_other_characters() {
    assert_eq!(to_numbered_tag("Café Crème", 2), "02-café-crème");
    assert_eq!(to_numbered_tag("", 5), "05-");
}

#[test]
fn trim_removes_unicode_whitespace() {
    assert_eq!(trim("\u{C}text\u{A0}"), "text");
    assert_eq!(trim("\u{2003}\u{85}x\u{2028}"), "x");
}
