//! The five-level config hierarchy: a track references module files, a
//! module holds units inline, a unit references topic files, and a topic
//! declares content, bullet lists and exercises. Every path field is kept
//! relative to the file that declared it; `PathTo` pairs a record with the
//! path it was loaded from so that nested references resolve against the
//! declaring file's directory.
use vstd::prelude::*;
use crate::errors::Error;
use crate::paths::{join, join_spec, parent_dir, parent_dir_spec};

verus! {

/// A file-backed practice task whose source files are selectively copied
/// into the output tree.
pub struct Exercise {
    pub name: String,
    pub path: String,
    pub description: String,
    pub includes: Vec<String>,
}

/// A content unit contributing slide text, objectives, summary bullets and
/// exercises.
pub struct Topic {
    pub name: String,
    pub dependencies: Vec<String>,
    pub exercises: Vec<Exercise>,
    pub summary: Vec<String>,
    pub objectives: Vec<String>,
    pub content: String,
    pub further_reading: Vec<String>,
}

/// A named grouping of topics sharing one template and producing one slide
/// document.
pub struct Unit {
    pub name: String,
    pub template: String,
    pub topics: Vec<String>,
}

/// A named grouping of units with a description.
pub struct Module {
    pub units: Vec<Unit>,
    pub name: String,
    pub description: String,
}

/// The top-level curriculum definition referencing an ordered list of
/// module files.
pub struct Track {
    pub name: String,
    pub modules: Vec<String>,
    pub excluded_topics: Vec<String>,
}

/// A loaded record together with the path of the file it came from, the
/// base against which its own relative references resolve.
pub struct PathTo<T> {
    pub data: T,
    pub path: String,
}

/// The default slide-content file of a topic.
pub fn topic_slides_md() -> (r: String)
    ensures
        r@ == "slides.md"@,
{
    "slides.md".to_owned()
}

/// The default template file of a unit.
pub fn unit_template_md() -> (r: String)
    ensures
        r@ == "template.md"@,
{
    "template.md".to_owned()
}

/// The default description file of an exercise.
pub fn exercise_description_md() -> (r: String)
    ensures
        r@ == "description.md"@,
{
    "description.md".to_owned()
}

/// The default include patterns of an exercise: the project metadata files
/// and everything under the source directory.
pub fn exercise_includes() -> (r: Vec<String>)
    ensures
        r@.len() == 3,
        r@[0]@ == "Cargo.toml"@,
        r@[1]@ == "Cargo.lock"@,
        r@[2]@ == "src/*/**"@,
{
    let mut v: Vec<String> = Vec::new();
    v.push("Cargo.toml".to_owned());
    v.push("Cargo.lock".to_owned());
    v.push("src/*/**".to_owned());
    v
}

impl Track {
    /// Resolving the excluded-topic references is not supported; asking
    /// for it fails rather than silently doing nothing.
    pub fn load_excluded_topics(&self) -> (r: Result<Vec<Topic>, Error>)
        ensures
            r matches Err(Error::Unsupported),
    {
        Err(Error::Unsupported)
    }

    /// Pairs a parsed track with the path it was read from. Reading and
    /// parsing the file are the caller's concern; the pairing is what the
    /// rest of the resolution depends on.
    pub fn load(data: Track, path: String) -> (r: PathTo<Track>)
        ensures
            r.data == data,
            r.path == path,
    {
        PathTo { data, path }
    }
}

impl PathTo<Track> {
    /// The files of the track's modules, each reference resolved against
    /// the track file's own directory, in declaration order.
    pub fn load_modules(&self) -> (r: Vec<String>)
        ensures
            r@.len() == self.data.modules@.len(),
            forall|i: int|
                0 <= i < r@.len() ==> r@[i]@ == join_spec(
                    parent_dir_spec(self.path@),
                    self.data.modules@[i]@,
                ),
    {
        let base = parent_dir(self.path.as_str());
        let mut r: Vec<String> = Vec::new();
        let n = self.data.modules.len();
        let mut i: usize = 0;
        while i < n
            invariant
                0 <= i <= n,
                n == self.data.modules@.len(),
                base@ == parent_dir_spec(self.path@),
                r@.len() == i,
                forall|k: int|
                    0 <= k < i ==> r@[k]@ == join_spec(
                        parent_dir_spec(self.path@),
                        self.data.modules@[k]@,
                    ),
            decreases n - i,
        {
            r.push(join(base.as_str(), self.data.modules[i].as_str()));
            i = i + 1;
        }
        r
    }
}

impl PathTo<Module> {
    /// The topic files of each of the module's units, unit by unit in
    /// declaration order, each reference resolved against the module
    /// file's own directory (units are inline, so the module file is the
    /// declaring file).
    pub fn load_topics(&self) -> (r: Vec<Vec<String>>)
        ensures
            r@.len() == self.data.units@.len(),
            forall|j: int| 0 <= j < r@.len() ==> r@[j]@.len() == self.data.units@[j].topics@.len(),
            forall|j: int, k: int|
                0 <= j < r@.len() && 0 <= k < r@[j]@.len() ==> r@[j]@[k]@ == join_spec(
                    parent_dir_spec(self.path@),
                    self.data.units@[j].topics@[k]@,
                ),
    {
        let base = parent_dir(self.path.as_str());
        let mut r: Vec<Vec<String>> = Vec::new();
        let n = self.data.units.len();
        let mut j: usize = 0;
        while j < n
            invariant
                0 <= j <= n,
                n == self.data.units@.len(),
                base@ == parent_dir_spec(self.path@),
                r@.len() == j,
                forall|t: int| 0 <= t < j ==> r@[t]@.len() == self.data.units@[t].topics@.len(),
                forall|t: int, k: int|
                    0 <= t < j && 0 <= k < r@[t]@.len() ==> r@[t]@[k]@ == join_spec(
                        parent_dir_spec(self.path@),
                        self.data.units@[t].topics@[k]@,
                    ),
            decreases n - j,
        {
            let unit = &self.data.units[j];
            let mut topics: Vec<String> = Vec::new();
            let m = unit.topics.len();
            let mut k: usize = 0;
            while k < m
                invariant
                    0 <= k <= m,
                    m == unit.topics@.len(),
                    unit == self.data.units@[j as int],
                    base@ == parent_dir_spec(self.path@),
                    topics@.len() == k,
                    forall|t: int|
                        0 <= t < k ==> topics@[t]@ == join_spec(
                            parent_dir_spec(self.path@),
                            unit.topics@[t]@,
                        ),
                decreases m - k,
            {
                topics.push(join(base.as_str(), unit.topics[k].as_str()));
                k = k + 1;
            }
            r.push(topics);
            j = j + 1;
        }
        r
    }
}

/// The enumerated files of one exercise's source directory, as the
/// filesystem walk reported them.
pub struct ExerciseFiles {
    pub files: Vec<String>,
}

/// A topic together with the text of its slide-content file and the file
/// listing of each of its exercises, aligned with the topic's exercise
/// list.
pub struct LoadedTopic {
    pub topic: PathTo<Topic>,
    pub slides: String,
    pub exercise_files: Vec<ExerciseFiles>,
}

/// A unit together with its template text and its loaded topics.
pub struct LoadedUnit {
    pub unit: Unit,
    pub template: String,
    pub topics: Vec<LoadedTopic>,
}

/// A module together with its loaded units.
pub struct LoadedModule {
    pub module: PathTo<Module>,
    pub units: Vec<LoadedUnit>,
}

} // verus!
