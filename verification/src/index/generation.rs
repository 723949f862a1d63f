//! Generations: an index is built in a staging directory, published under a name of its own, and
//! never changed again. A file at the root of the index says which generation is current.

use crate::index::layout;
use crate::index::layout::{load_fields, schema_is_current, IndexFields};
use crate::text;
use vstd::prelude::*;

verus! {

broadcast use vstd::string::group_string_axioms;

/// The directory that holds the generations of an index.
pub const GENERATIONS_DIR: &'static str = "generations";

/// The file that names the current generation.
pub const CURRENT_FILE: &'static str = "CURRENT";

/// The file that a directory with an index in it has.
pub const META_FILE: &'static str = "meta.json";

/// A text that can name a generation: a single component of a path that leads down.
pub open spec fn names_generation(name: Seq<char>) -> bool {
    &&& name.len() > 0
    &&& name != "."@
    &&& name != ".."@
    &&& !name.contains('/')
    &&& !name.contains('\\')
}

/// The generation that the contents of [`CURRENT_FILE`] name.
pub open spec fn current_name(contents: Seq<char>) -> Option<Seq<char>> {
    let name = text::trimmed(contents);
    if names_generation(name) {
        Some(name)
    } else {
        None
    }
}

/// Whether a character occurs in a text.
fn has_char(s: &str, c: char) -> (r: bool)
    ensures
        r == s@.contains(c),
{
    let chars = text::chars_of(s);
    let mut i: usize = 0;
    while i < chars.len()
        invariant
            i <= chars@.len(),
            chars@ == s@,
            forall|j: int| 0 <= j < i ==> chars@[j] != c,
        decreases chars@.len() - i,
    {
        if chars[i] == c {
            assert(s@[i as int] == c);
            return true;
        }
        i += 1;
    }
    false
}

/// The name of the current generation, from the contents of [`CURRENT_FILE`], which are `None`
/// where the file cannot be read.
pub fn resolve_current_generation(contents: Option<&str>) -> (r: Option<String>)
    ensures
        text::opt_text(r) == match contents {
            Some(contents) => current_name(contents@),
            None => None,
        },
{
    let name = match contents {
        Some(contents) => text::trim(contents),
        None => {
            return None;
        },
    };
    if name.is_empty() || text::same(name, ".") || text::same(name, "..") || has_char(name, '/')
        || has_char(name, '\\') {
        None
    } else {
        Some(text::owned(name))
    }
}

/// The contents of [`CURRENT_FILE`] that name a generation.
pub open spec fn current_contents(name: Seq<char>) -> Seq<char> {
    name + "\n"@
}

/// The contents of [`CURRENT_FILE`] that name a generation.
pub fn current_file_contents(name: &str) -> (r: String)
    ensures
        r@ == current_contents(name@),
{
    let mut contents = text::owned(name);
    contents.append("\n");
    contents
}

/// The name of a generation that a process started at a time: both in hexadecimal.
pub open spec fn generation_name(nanos: u128, process: u32) -> Seq<char> {
    text::hex(nanos as nat, 32) + "-"@ + text::hex(process as nat, 8)
}

/// The name of a new generation, from the nanoseconds since the Unix epoch (`None` before it) and
/// the id of the process.
pub fn new_generation_name(nanos: Option<u128>, process: u32) -> (r: String)
    ensures
        r@ == generation_name(
            match nanos {
                Some(nanos) => nanos,
                None => 0,
            },
            process,
        ),
{
    let nanos: u128 = match nanos {
        Some(nanos) => nanos,
        None => 0,
    };
    let mut name = String::new();
    text::push_hex(&mut name, nanos, 32);
    name.append("-");
    text::push_hex(&mut name, process as u128, 8);
    assert(name@ =~= generation_name(nanos, process));
    name
}

/// The name of the directory in which a generation is built.
pub open spec fn staging(name: Seq<char>) -> Seq<char> {
    "."@ + name + ".tmp"@
}

/// The name of the directory in which a generation is built.
pub fn staging_name(name: &str) -> (r: String)
    ensures
        r@ == staging(name@),
{
    let mut staging = text::owned(".");
    staging.append(name);
    staging.append(".tmp");
    staging
}

/// Whether there is an index. `current_has_meta` says whether the current generation has a
/// [`META_FILE`], `None` where there is no current generation; `root_has_meta` says it of the root.
pub fn index_exists(current_has_meta: Option<bool>, root_has_meta: bool) -> (r: bool)
    ensures
        r == (current_has_meta == Some(true) || root_has_meta),
        root_has_meta ==> r,
        current_has_meta == Some(true) ==> r,
        r && !root_has_meta ==> current_has_meta == Some(true),
{
    match current_has_meta {
        Some(true) => true,
        _ => root_has_meta,
    }
}

/// Where an index is opened for reading.
#[derive(Debug)]
pub enum OpenTarget {
    /// The generation of this name, which is sealed.
    Generation { name: String },
    /// The root, as an index that has no generations yet.
    Root,
}

/// Where an index is opened for reading: at its current generation, where it has one.
pub fn open_target(current: Option<String>) -> (r: OpenTarget)
    ensures
        r == match current {
            Some(name) => OpenTarget::Generation { name },
            None => OpenTarget::Root,
        },
        r is Root <==> current is None,
        r matches OpenTarget::Generation { name } ==> current == Some(name),
{
    match current {
        Some(name) => OpenTarget::Generation { name },
        None => OpenTarget::Root,
    }
}

/// What a new generation starts from.
#[derive(Debug)]
pub enum IngestSeed {
    /// A copy of the generation of this name.
    Generation { name: String },
    /// A copy of the index at the root.
    Root,
    /// Nothing.
    Empty,
}

/// A generation that is being built or was built.
#[derive(Debug)]
pub struct PendingGeneration {
    pub generation_name: String,
    /// The name of the directory in which it is built.
    pub staging_name: String,
    /// There was a current generation when this one was begun.
    pub replaces_published_generation: bool,
    pub published: bool,
}

/// How an index is opened for writing: what the new generation starts from, and the generation.
pub fn open_for_ingest(
    current: Option<String>,
    root_has_meta: bool,
    nanos: Option<u128>,
    process: u32,
) -> (r: (IngestSeed, PendingGeneration))
    ensures
        r.0 == match current {
            Some(name) => IngestSeed::Generation { name },
            None => if root_has_meta {
                IngestSeed::Root
            } else {
                IngestSeed::Empty
            },
        },
        r.1.generation_name@ == generation_name(
            match nanos {
                Some(nanos) => nanos,
                None => 0,
            },
            process,
        ),
        r.1.staging_name@ == staging(r.1.generation_name@),
        r.1.replaces_published_generation == (current is Some),
        !r.1.published,
        r.0 matches IngestSeed::Generation { name } ==> current == Some(name),
        r.0 is Root ==> current is None && root_has_meta,
        r.0 is Empty ==> current is None && !root_has_meta,
        current_name(current_contents(r.1.generation_name@)) == Some(r.1.generation_name@),
{
    proof {
        law_published_generation_is_current(
            match nanos {
                Some(nanos) => nanos,
                None => 0,
            },
            process,
        );
    }
    let generation_name = new_generation_name(nanos, process);
    let staging_name = staging_name(generation_name.as_str());
    let replaces_published_generation = current.is_some();
    let seed = match current {
        Some(name) => IngestSeed::Generation { name },
        None => {
            if root_has_meta {
                IngestSeed::Root
            } else {
                IngestSeed::Empty
            }
        },
    };
    (
        seed,
        PendingGeneration {
            generation_name,
            staging_name,
            replaces_published_generation,
            published: false,
        },
    )
}

/// What to do with an index whose schema is stale.
#[derive(Clone, Copy, Debug, PartialEq, Eq, Structural)]
pub enum StaleSchemaPolicy {
    Error,
    Recreate,
}

/// What to do with a directory that is opened as an index.
#[derive(Debug)]
pub enum OpenStep {
    /// Create an index in it.
    Create,
    /// Use the index in it, whose fields have these numbers.
    Use { fields: IndexFields },
    /// Replace the index in it by an empty one.
    Recreate,
    /// Leave it as it is, and fail.
    Refuse,
}

/// What to do with a directory that is opened as an index. `found` is the schema of the index in
/// it, `None` where there is no index.
pub fn open_step(found: Option<&tantivy::schema::Schema>, policy: StaleSchemaPolicy) -> (r:
    OpenStep)
    ensures
        match found {
            None => r is Create,
            Some(found) => if layout::has_current_fields(layout::schema_fields(*found)) {
                &&& r matches OpenStep::Use { fields }
                &&& fields.loaded_from(layout::schema_fields(*found))
                &&& fields.searchable_in(layout::schema_fields(*found))
            } else {
                match policy {
                    StaleSchemaPolicy::Error => r is Refuse,
                    StaleSchemaPolicy::Recreate => r is Recreate,
                }
            },
        },
        r is Create <==> found is None,
        r is Recreate ==> policy is Recreate,
        r is Refuse ==> policy is Error,
{
    let found = match found {
        Some(found) => found,
        None => {
            return OpenStep::Create;
        },
    };
    if !schema_is_current(found) {
        return match policy {
            StaleSchemaPolicy::Error => OpenStep::Refuse,
            StaleSchemaPolicy::Recreate => OpenStep::Recreate,
        };
    }
    match load_fields(found) {
        Ok(fields) => OpenStep::Use { fields },
        Err(_) => {
            proof {
                layout::lemma_current_misses_nothing(layout::schema_fields(*found));
            }
            OpenStep::Refuse
        },
    }
}

/// Why an index could not be opened, written or published.
#[derive(Debug)]
pub enum IndexError {
    StaleSchema { path: String },
    Sealed,
    NothingToPublish { generation_name: String },
}

/// What an error says.
pub open spec fn error_text(error: IndexError) -> Seq<char> {
    match error {
        IndexError::StaleSchema { path } => "index schema at "@ + path@
            + " is stale; run `memex index` or `memex reindex` to rebuild it"@,
        IndexError::Sealed => "cannot create a writer for a sealed index generation"@,
        IndexError::NothingToPublish { generation_name } => "index generation "@
            + generation_name@ + " has neither staging nor published data"@,
    }
}

impl IndexError {
    /// What this error says.
    pub fn message(&self) -> (r: String)
        ensures
            r@ == error_text(*self),
    {
        match self {
            IndexError::StaleSchema { path } => {
                let mut message = text::owned("index schema at ");
                message.append(path.as_str());
                message.append(" is stale; run `memex index` or `memex reindex` to rebuild it");
                message
            },
            IndexError::Sealed => text::owned(
                "cannot create a writer for a sealed index generation",
            ),
            IndexError::NothingToPublish { generation_name } => {
                let mut message = text::owned("index generation ");
                message.append(generation_name.as_str());
                message.append(" has neither staging nor published data");
                message
            },
        }
    }
}

/// Whether an index may be written: a sealed one may not.
pub fn check_writable(writable: bool) -> (r: Result<(), IndexError>)
    ensures
        r == if writable {
            Ok(())
        } else {
            Err::<(), _>(IndexError::Sealed)
        },
        r is Ok <==> writable,
{
    if writable {
        Ok(())
    } else {
        Err(IndexError::Sealed)
    }
}

/// What to do to publish a generation.
#[derive(Clone, Copy, Debug, PartialEq, Eq, Structural)]
pub enum PublishStep {
    /// Nothing: it is no generation of its own, or was published before.
    Nothing,
    /// Move the staging directory to its final place, then name the generation as the current one.
    MoveAndAdvance,
    /// Name the generation, which is in its final place, as the current one.
    Advance,
}

/// What to do to publish a generation, from whether it was published before, whether its staging
/// directory exists and whether its final directory does. `None` where there is nothing to publish.
pub open spec fn publish_step(published: bool, staging_exists: bool, final_exists: bool) -> Option<
    PublishStep,
> {
    if published {
        Some(PublishStep::Nothing)
    } else if staging_exists {
        Some(PublishStep::MoveAndAdvance)
    } else if final_exists {
        Some(PublishStep::Advance)
    } else {
        None
    }
}

/// What to do to publish a generation. `pending` is `None` for an index that is no generation of
/// its own.
pub fn publish_generation(
    pending: Option<&PendingGeneration>,
    staging_exists: bool,
    final_exists: bool,
) -> (r: Result<PublishStep, IndexError>)
    ensures
        match pending {
            Some(pending) => match publish_step(pending.published, staging_exists, final_exists) {
                Some(step) => r == Ok::<_, IndexError>(step),
                None => {
                    &&& r matches Err(IndexError::NothingToPublish { generation_name })
                    &&& generation_name@ == pending.generation_name@
                },
            },
            None => r == Ok::<_, IndexError>(PublishStep::Nothing),
        },
        r == Ok::<_, IndexError>(PublishStep::MoveAndAdvance) <==> pending is Some
            && !pending->0.published && staging_exists,
        r == Ok::<_, IndexError>(PublishStep::Advance) <==> pending is Some
            && !pending->0.published && !staging_exists && final_exists,
        r is Err <==> pending is Some && !pending->0.published && !staging_exists && !final_exists,
{
    let pending = match pending {
        Some(pending) => pending,
        None => {
            return Ok(PublishStep::Nothing);
        },
    };
    if pending.published {
        return Ok(PublishStep::Nothing);
    }
    if staging_exists {
        Ok(PublishStep::MoveAndAdvance)
    } else if final_exists {
        Ok(PublishStep::Advance)
    } else {
        Err(IndexError::NothingToPublish { generation_name: pending.generation_name.clone() })
    }
}

/// Remembers that a generation was published.
pub fn mark_published(pending: &mut PendingGeneration)
    ensures
        *final(pending) == (PendingGeneration { published: true, ..*old(pending) }),
{
    pending.published = true;
}

/// Publishing can be taken up where it was broken off: once the staging directory was moved, only
/// the name is left to be written. Once a generation counts as published, nothing is done to it.
pub proof fn law_publishing_resumes(final_exists: bool)
    ensures
        publish_step(false, true, final_exists) == Some(PublishStep::MoveAndAdvance),
        publish_step(false, false, true) == Some(PublishStep::Advance),
        publish_step(false, false, false) is None,
        forall|staging: bool, done: bool|
            publish_step(true, staging, done) == Some(PublishStep::Nothing),
{
}

/// Whether a generation is published at once: only where there was none to be read before.
pub fn publish_generation_if_uninitialized(pending: Option<&PendingGeneration>) -> (r: bool)
    ensures
        r == (pending is Some && !pending->0.replaces_published_generation),
{
    match pending {
        Some(pending) => !pending.replaces_published_generation,
        None => false,
    }
}

/// Whether the staging directory of a generation that is given up is removed: not once the
/// generation was published.
pub fn removes_staging(pending: &PendingGeneration) -> (r: bool)
    ensures
        r == !pending.published,
{
    !pending.published
}

/// What to do with a directory entry of an index that is copied.
#[derive(Clone, Copy, Debug, PartialEq, Eq, Structural)]
pub enum CloneStep {
    /// Leave it out.
    Skip,
    /// Copy it: the index replaces it in place.
    Copy,
    /// Share it by a hard link, or copy it where that fails: the index never changes it.
    Share,
}

/// A file that the index replaces in place.
pub open spec fn replaced_in_place(name: Seq<char>) -> bool {
    name == "meta.json"@ || name == ".managed.json"@
}

/// A file that only locks the index that it is in.
pub open spec fn locks(name: Seq<char>) -> bool {
    name == ".tantivy-meta.lock"@ || name == ".tantivy-writer.lock"@
}

/// Whether a file of a generation has to be copied rather than shared.
pub fn should_copy_generation_file(name: &str) -> (r: bool)
    ensures
        r == replaced_in_place(name@),
{
    text::same(name, "meta.json") || text::same(name, ".managed.json")
}

/// What to do with a directory entry of an index that is copied.
pub fn clone_step(is_file: bool, name: &str) -> (r: CloneStep)
    ensures
        r == if !is_file || locks(name@) {
            CloneStep::Skip
        } else if replaced_in_place(name@) {
            CloneStep::Copy
        } else {
            CloneStep::Share
        },
        is_file && (name@ == "meta.json"@ || name@ == ".managed.json"@) ==> r == CloneStep::Copy,
        name@ == ".tantivy-meta.lock"@ || name@ == ".tantivy-writer.lock"@ ==> r == CloneStep::Skip,
        !is_file ==> r == CloneStep::Skip,
{
    proof {
        law_files_that_are_not_shared(name@);
    }
    if !is_file {
        return CloneStep::Skip;
    }
    if text::same(name, ".tantivy-meta.lock") || text::same(name, ".tantivy-writer.lock") {
        return CloneStep::Skip;
    }
    if should_copy_generation_file(name) {
        CloneStep::Copy
    } else {
        CloneStep::Share
    }
}

/// A name without white space at its ends is read back as it was written.
proof fn lemma_name_is_read_back(name: Seq<char>)
    requires
        name.len() > 0,
        !text::white(name.first()),
        !text::white(name.last()),
    ensures
        text::trimmed(current_contents(name)) == name,
{
    reveal_strlit("\n");
    let contents = current_contents(name);
    assert(contents.first() == name.first());
    assert(text::trimmed_start(contents) == contents);
    assert(contents.last() == '\n');
    assert(contents.drop_last() =~= name);
    assert(text::trimmed_end(contents) == text::trimmed_end(name));
}

/// What a generation's name is made of.
proof fn lemma_generation_name_shape(nanos: u128, process: u32)
    ensures
        ({
            let name = generation_name(nanos, process);
            &&& name.len() == 41
            &&& forall|i: int|
                0 <= i < 41 ==> {
                    let c = #[trigger] name[i];
                    ('0' <= c && c <= '9') || ('a' <= c && c <= 'f') || c == '-'
                }
            &&& name[0] != '-'
            &&& name[40] != '-'
        }),
{
    reveal_strlit("-");
    text::lemma_hex_shape(nanos as nat, 32);
    text::lemma_hex_shape(process as nat, 8);
    let name = generation_name(nanos, process);
    let front = text::hex(nanos as nat, 32);
    let back = text::hex(process as nat, 8);
    assert forall|i: int| 0 <= i < 41 implies {
        let c = #[trigger] name[i];
        ('0' <= c && c <= '9') || ('a' <= c && c <= 'f') || c == '-'
    } by {
        if i < 32 {
            assert(name[i] == front[i]);
        } else if i > 32 {
            assert(name[i] == back[i - 33]);
        }
    }
    assert(name[0] == front[0]);
    assert(name[40] == back[7]);
}

/// Publishing advances new readers: once a generation's name is written, it is the generation that
/// is read.
pub proof fn law_published_generation_is_current(nanos: u128, process: u32)
    ensures
        current_name(current_contents(generation_name(nanos, process))) == Some(
            generation_name(nanos, process),
        ),
{
    let name = generation_name(nanos, process);
    lemma_generation_name_shape(nanos, process);
    assert(name.first() == name[0]);
    assert(name.last() == name[40]);
    lemma_name_is_read_back(name);
    reveal_strlit(".");
    reveal_strlit("..");
    if name.contains('/') {
        let i = choose|i: int| 0 <= i < name.len() && name[i] == '/';
        assert(name[i] == '/');
    }
    if name.contains('\\') {
        let i = choose|i: int| 0 <= i < name.len() && name[i] == '\\';
        assert(name[i] == '\\');
    }
}

/// Generations that start at different times or in different processes have different names.
pub proof fn law_generation_names_differ(
    nanos: u128,
    process: u32,
    other_nanos: u128,
    other_process: u32,
)
    requires
        generation_name(nanos, process) == generation_name(other_nanos, other_process),
    ensures
        nanos == other_nanos,
        process == other_process,
{
    let a = generation_name(nanos, process);
    let b = generation_name(other_nanos, other_process);
    text::lemma_hex_shape(nanos as nat, 32);
    text::lemma_hex_shape(process as nat, 8);
    text::lemma_hex_shape(other_nanos as nat, 32);
    text::lemma_hex_shape(other_process as nat, 8);
    reveal_strlit("-");
    assert(a.take(32) =~= text::hex(nanos as nat, 32));
    assert(b.take(32) =~= text::hex(other_nanos as nat, 32));
    assert(a.skip(33) =~= text::hex(process as nat, 8));
    assert(b.skip(33) =~= text::hex(other_process as nat, 8));
    text::lemma_pow16();
    text::lemma_hex_injective(nanos as nat, other_nanos as nat, 32);
    text::lemma_hex_injective(process as nat, other_process as nat, 8);
}

/// A staging directory is never taken for a generation, whichever it is of.
pub proof fn law_staging_is_no_generation(name: Seq<char>, nanos: u128, process: u32)
    ensures
        staging(name) != generation_name(nanos, process),
{
    reveal_strlit(".");
    lemma_generation_name_shape(nanos, process);
    assert(staging(name)[0] == '.');
    assert(generation_name(nanos, process)[0] != '.');
}

/// What [`CURRENT_FILE`] names is a place among the generations, never one outside of them.
pub proof fn law_current_stays_inside(contents: Seq<char>)
    ensures
        current_name(contents) matches Some(name) ==> {
            &&& name.len() > 0
            &&& !name.contains('/')
            &&& !name.contains('\\')
            &&& name != "."@
            &&& name != ".."@
        },
{
}

/// Whatever names a generation and has no white space at its ends is read back as it was written.
pub proof fn law_written_names_are_read_back(name: Seq<char>)
    requires
        name.len() > 0,
        !text::white(name.first()),
        !text::white(name.last()),
        name != "."@,
        name != ".."@,
        !name.contains('/'),
        !name.contains('\\'),
    ensures
        current_name(current_contents(name)) == Some(name),
{
    lemma_name_is_read_back(name);
}

/// The name of a generation says when and by which process it was begun, each in as many digits as
/// the largest one takes.
pub proof fn law_generation_name_says_when_and_by_whom(nanos: u128, process: u32)
    ensures
        ({
            let name = generation_name(nanos, process);
            &&& name.len() == 41
            &&& text::number_said(name.take(32), 16) == nanos
            &&& name[32] == '-'
            &&& text::number_said(name.skip(33), 16) == process
        }),
{
    let name = generation_name(nanos, process);
    reveal_strlit("-");
    text::lemma_pow16();
    text::law_hex_says_its_number(nanos as nat, 32);
    text::law_hex_says_its_number(process as nat, 8);
    assert(name.take(32) =~= text::hex(nanos as nat, 32));
    assert(name.skip(33) =~= text::hex(process as nat, 8));
}

/// A generation is built in a hidden directory that is named after it.
pub proof fn law_staging_is_named_after_its_generation(name: Seq<char>, other: Seq<char>)
    ensures
        staging(name).first() == '.',
        ".tmp"@.is_suffix_of(staging(name)),
        staging(name) == staging(other) ==> name == other,
        staging(name).len() == name.len() + 5,
{
    reveal_strlit(".");
    reveal_strlit(".tmp");
    let all = staging(name);
    assert(all.subrange(all.len() - 4, all.len() as int) =~= ".tmp"@);
    assert(staging(name).subrange(1, 1 + name.len() as int) =~= name);
    assert(staging(other).subrange(1, 1 + other.len() as int) =~= other);
}

/// The files that the index replaces in place are its two lists of files, and those that lock it
/// are its two lock files.
pub proof fn law_files_that_are_not_shared(name: Seq<char>)
    ensures
        replaced_in_place("meta.json"@),
        replaced_in_place(".managed.json"@),
        locks(".tantivy-meta.lock"@),
        locks(".tantivy-writer.lock"@),
        replaced_in_place(name) ==> name == "meta.json"@ || name == ".managed.json"@,
        locks(name) ==> name == ".tantivy-meta.lock"@ || name == ".tantivy-writer.lock"@,
        !(replaced_in_place(name) && locks(name)),
{
    reveal_strlit("meta.json");
    reveal_strlit(".managed.json");
    reveal_strlit(".tantivy-meta.lock");
    reveal_strlit(".tantivy-writer.lock");
    assert("meta.json"@.len() == 9 && ".managed.json"@.len() == 13);
    assert(".tantivy-meta.lock"@.len() == 18 && ".tantivy-writer.lock"@.len() == 20);
}

/// An error names the index or the generation that it is about.
pub proof fn law_errors_name_what_they_are_about(path: String, generation_name: String)
    ensures
        text::occurs(error_text(IndexError::StaleSchema { path }), path@),
        text::occurs(
            error_text(IndexError::NothingToPublish { generation_name }),
            generation_name@,
        ),
{
    let stale = error_text(IndexError::StaleSchema { path });
    let a = "index schema at "@.len() as int;
    assert(stale.subrange(a, a + path@.len()) =~= path@);
    assert(text::occurs_at(stale, path@, a));
    let nothing = error_text(IndexError::NothingToPublish { generation_name });
    let b = "index generation "@.len() as int;
    assert(nothing.subrange(b, b + generation_name@.len()) =~= generation_name@);
    assert(text::occurs_at(nothing, generation_name@, b));
}

} // verus!
