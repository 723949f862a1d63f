//! The Hermes message store: what is read from its database becomes records and usage events.

use crate::sources::{ParserVersions, SourceFile};
use crate::text;
use crate::types::SourceKind;
use std::path::PathBuf;
use vstd::prelude::*;

pub mod calls;
pub mod content;
pub mod laws;
pub mod parse;
pub mod projection;
pub mod store;
pub mod usage;

verus! {

broadcast use vstd::string::group_string_axioms;

/// The versions of the rules in this module.
pub open spec fn own_versions() -> ParserVersions {
    ParserVersions { identity: 1, index: 2, usage: 1 }
}

/// The versions of the rules in this module.
pub fn versions() -> (r: ParserVersions)
    ensures
        r == own_versions(),
        r.identity == 1 && r.index == 2 && r.usage == 1,
{
    ParserVersions { identity: 1, index: 2, usage: 1 }
}

/// A row of the message table, joined with its session.
#[derive(Debug)]
pub struct MessageRow {
    pub id: u64,
    pub session_id: String,
    pub role: String,
    pub content: Option<String>,
    pub tool_call_id: Option<String>,
    /// A JSON array of tool calls.
    pub tool_calls: Option<String>,
    pub tool_name: Option<String>,
    pub timestamp_ms: u64,
    pub reasoning: Option<String>,
    pub reasoning_content: Option<String>,
    /// The project that the session's working directory belongs to.
    pub project: Option<String>,
    pub parent_session_id: Option<String>,
}

/// What `PathBuf::join` makes of a path and a name.
pub uninterp spec fn joined_path(base: PathBuf, name: Seq<char>) -> PathBuf;

/// Calls `PathBuf::join`. The result depends on the path and the name alone.
#[verifier::external_body]
fn join_path(base: &PathBuf, name: &str) -> (r: PathBuf)
    ensures
        r == joined_path(*base, name@),
{
    base.join(name)
}

/// The Hermes home directory: the one that `HERMES_HOME` names, otherwise `.hermes` in the home
/// directory of the user.
pub open spec fn home_of(hermes_home: Option<PathBuf>, user_home: PathBuf) -> PathBuf {
    match hermes_home {
        Some(path) => path,
        None => joined_path(user_home, ".hermes"@),
    }
}

/// The Hermes home directory: the one that `HERMES_HOME` names, otherwise `.hermes` in the home
/// directory of the user.
pub fn home(hermes_home: Option<PathBuf>, user_home: PathBuf) -> (r: PathBuf)
    ensures
        r == home_of(hermes_home, user_home),
{
    match hermes_home {
        Some(path) => path,
        None => join_path(&user_home, ".hermes"),
    }
}

/// The path of the database in the Hermes home directory.
pub fn database_path(hermes_home: Option<PathBuf>, user_home: PathBuf) -> (r: PathBuf)
    ensures
        r == joined_path(home_of(hermes_home, user_home), "state.db"@),
{
    join_path(&home(hermes_home, user_home), "state.db")
}

/// The one source file there is, if the database is a file.
pub fn discover(database: PathBuf, is_file: bool) -> (r: Vec<SourceFile>)
    ensures
        r@ == if is_file {
            seq![SourceFile { source: SourceKind::Hermes, path: database }]
        } else {
            seq![]
        },
        is_file ==> r@.len() == 1 && r@[0].path == database && r@[0].source is Hermes,
        !is_file ==> r@.len() == 0,
{
    let mut files: Vec<SourceFile> = Vec::new();
    if is_file {
        files.push(SourceFile { source: SourceKind::Hermes, path: database });
    }
    files
}

/// A path into a Hermes home that ends like the database or its write-ahead log.
pub open spec fn named_like_store(path: Seq<char>) -> bool {
    &&& text::occurs(path, ".hermes/"@) || text::occurs(path, ".hermes\\"@)
    &&& "state.db"@.is_suffix_of(path) || "state.db-wal"@.is_suffix_of(path)
}

/// Whether a path is that of a Hermes database. `is_database` says whether it is the same path as
/// that of the database in use.
pub fn matches_store(path: &str, is_database: bool) -> (r: bool)
    ensures
        r == (is_database || named_like_store(path@)),
{
    is_database || ((text::contains(path, ".hermes/") || text::contains(path, ".hermes\\")) && (
    text::ends_with(path, "state.db") || text::ends_with(path, "state.db-wal")))
}

/// A letter of a path, with capital letters of ASCII as small ones. Separators and dots, which
/// may stand in one of two equal paths and not in the other, are none.
pub open spec fn path_letter(c: char) -> Option<char> {
    if c == '/' || c == '\\' || c == '.' {
        None
    } else if 'A' <= c && c <= 'Z' {
        Some((c as u32 + 32) as char)
    } else {
        Some(c)
    }
}

/// The letters of a path.
pub open spec fn path_letters(path: Seq<char>) -> Seq<char>
    decreases path.len(),
{
    if path.len() == 0 {
        seq![]
    } else {
        match path_letter(path.last()) {
            Some(letter) => path_letters(path.drop_last()).push(letter),
            None => path_letters(path.drop_last()),
        }
    }
}

/// A path that every platform takes apart in the same way: it has no backslash and no colon, and
/// does not start with two slashes.
pub open spec fn plain_path(path: Seq<char>) -> bool {
    &&& forall|i: int| 0 <= i < path.len() ==> #[trigger] path[i] != '\\' && path[i] != ':'
    &&& path.len() >= 2 ==> path[0] != '/' || path[1] != '/'
}

/// The pieces between the slashes of a path. There is always one, which may be empty.
pub open spec fn path_pieces(path: Seq<char>) -> Seq<Seq<char>>
    decreases path.len(),
{
    if path.len() == 0 {
        seq![seq![]]
    } else {
        let before = path_pieces(path.drop_last());
        if path.last() == '/' {
            before.push(seq![])
        } else {
            before.drop_last().push(before.last().push(path.last()))
        }
    }
}

/// The pieces that name something: neither empty nor a single dot.
pub open spec fn named_pieces(pieces: Seq<Seq<char>>) -> Seq<Seq<char>>
    decreases pieces.len(),
{
    if pieces.len() == 0 {
        seq![]
    } else {
        let before = named_pieces(pieces.drop_last());
        if pieces.last().len() == 0 || pieces.last() == seq!['.'] {
            before
        } else {
            before.push(pieces.last())
        }
    }
}

/// What a plain path consists of.
#[verifier::ext_equal]
pub struct PathParts {
    /// Whether it starts at the root.
    pub rooted: bool,
    /// Whether it starts with a single dot, which counts at the start and nowhere else.
    pub dotted: bool,
    /// The names in it.
    pub names: Seq<Seq<char>>,
}

/// What a plain path consists of.
pub open spec fn path_parts(path: Seq<char>) -> PathParts {
    PathParts {
        rooted: path.len() > 0 && path[0] == '/',
        dotted: path_pieces(path)[0] == seq!['.'],
        names: named_pieces(path_pieces(path)),
    }
}

/// Calls `==` on two `std::path::Path`s, which compares them component by component. Equal texts
/// are equal paths, and plain paths are equal where they consist of the same parts: repeated
/// slashes, one at the end, and single dots that are not at the start make no difference. Equal
/// paths differ at most in separators, in components that are a single dot, and on some platforms
/// in the case of a drive letter, so they have the same letters. Which other texts with the same
/// letters are equal paths depends on the platform and is left unsaid.
#[verifier::external_body]
fn same_path(a: &str, b: &str) -> (r: bool)
    ensures
        a@ == b@ ==> r,
        plain_path(a@) && plain_path(b@) ==> r == (path_parts(a@) == path_parts(b@)),
        r ==> path_letters(a@) == path_letters(b@),
{
    std::path::Path::new(a) == std::path::Path::new(b)
}

/// Whether `path` is that of a Hermes database: the one in use, or one that is named like it.
/// `database` is the path of the database in use, `None` where that is no Unicode text, and so
/// no path that `path` could be equal to. Where both paths are plain, that they consist of the same
/// parts decides whether `path` is the one in use; for others the platform has a say.
pub fn matches_path(path: &str, database: Option<&str>) -> (r: bool)
    ensures
        named_like_store(path@) ==> r,
        database is Some && plain_path(path@) && plain_path(database->0@) ==> r == (
        named_like_store(path@) || path_parts(path@) == path_parts(database->0@)),
        text::opt_str(database) == Some(path@) ==> r,
        r && !named_like_store(path@) ==> database is Some && path_letters(path@) == path_letters(
            database->0@,
        ),
        database is None ==> r == named_like_store(path@),
{
    let is_database = match database {
        Some(database) => same_path(path, database),
        None => false,
    };
    matches_store(path, is_database)
}

/// The home that is named is the home, and only where none is named it is in that of the user.
pub proof fn law_named_home_is_the_home(hermes_home: PathBuf, user_home: PathBuf)
    ensures
        home_of(Some(hermes_home), user_home) == hermes_home,
        home_of(None, user_home) == joined_path(user_home, ".hermes"@),
{
}

/// A path is named like a store just where it leads into a Hermes home, by either separator, and
/// ends in the name of the database or of its log.
pub proof fn law_stores_are_told_by_name(before: Seq<char>, between: Seq<char>, path: Seq<char>)
    ensures
        named_like_store(before + ".hermes/"@ + between + "state.db"@),
        named_like_store(before + ".hermes/"@ + between + "state.db-wal"@),
        named_like_store(before + ".hermes\\"@ + between + "state.db"@),
        named_like_store(before + ".hermes\\"@ + between + "state.db-wal"@),
        named_like_store(path) ==> text::occurs(path, ".hermes/"@) || text::occurs(
            path,
            ".hermes\\"@,
        ),
        named_like_store(path) ==> "state.db"@.is_suffix_of(path) || "state.db-wal"@.is_suffix_of(
            path,
        ),
{
    lemma_named_like_store(before, ".hermes/"@, between, "state.db"@);
    lemma_named_like_store(before, ".hermes/"@, between, "state.db-wal"@);
    lemma_named_like_store(before, ".hermes\\"@, between, "state.db"@);
    lemma_named_like_store(before, ".hermes\\"@, between, "state.db-wal"@);
}

proof fn lemma_named_like_store(
    before: Seq<char>,
    home: Seq<char>,
    between: Seq<char>,
    name: Seq<char>,
)
    ensures
        text::occurs(before + home + between + name, home),
        name.is_suffix_of(before + home + between + name),
{
    let path = before + home + between + name;
    let at = before.len() as int;
    assert(path.subrange(at, at + home.len()) =~= home);
    assert(text::occurs_at(path, home, at));
    assert(path.subrange(path.len() - name.len(), path.len() as int) =~= name);
}

/// Slashes that are repeated or at the end, and single dots between them, change nothing about a
/// path.
pub proof fn law_slashes_and_dots_change_nothing(path: Seq<char>)
    requires
        path.len() > 0,
    ensures
        path_parts(path.push('/')) == path_parts(path),
        path.last() == '/' ==> path_parts(path.push('.')) == path_parts(path),
{
    let pieces = path_pieces(path);
    lemma_pieces_exist(path);
    assert(path.push('/').drop_last() =~= path);
    assert(path.push('.').drop_last() =~= path);
    let slashed = path_pieces(path.push('/'));
    assert(slashed.drop_last() =~= pieces);
    assert(path_parts(path.push('/')) =~= path_parts(path));
    if path.last() == '/' {
        lemma_pieces_exist(path.drop_last());
        let dotted = path_pieces(path.push('.'));
        assert(dotted.drop_last() =~= pieces.drop_last());
        assert(dotted.last() =~= seq!['.']);
        assert(pieces.last().len() == 0);
        assert(named_pieces(dotted) == named_pieces(pieces));
        assert(dotted[0] == pieces[0]);
        assert(path_parts(path.push('.')) =~= path_parts(path));
    }
}

proof fn lemma_pieces_exist(path: Seq<char>)
    ensures
        path_pieces(path).len() > 0,
    decreases path.len(),
{
    if path.len() > 0 {
        lemma_pieces_exist(path.drop_last());
    }
}

/// A name that is added behind a slash is the last of the names of a path, if it is one.
pub proof fn law_names_are_added_at_the_end(path: Seq<char>, name: Seq<char>)
    requires
        path.len() > 0,
        path.last() == '/',
        name.len() > 0,
        name != seq!['.'],
        !name.contains('/'),
    ensures
        path_parts(path + name) == (PathParts {
            names: path_parts(path).names.push(name),
            ..path_parts(path)
        }),
{
    lemma_pieces_exist(path.drop_last());
    lemma_piece_grows(path, name);
    let pieces = path_pieces(path);
    let longer = path_pieces(path + name);
    assert(longer.drop_last() =~= pieces.drop_last());
    assert(longer[0] == pieces[0]);
    assert(path_parts(path + name) =~= (PathParts {
        names: path_parts(path).names.push(name),
        ..path_parts(path)
    }));
}

proof fn lemma_piece_grows(path: Seq<char>, name: Seq<char>)
    requires
        path.len() > 0,
        path.last() == '/',
        !name.contains('/'),
    ensures
        path_pieces(path + name) == path_pieces(path).drop_last().push(name),
    decreases name.len(),
{
    lemma_pieces_exist(path.drop_last());
    if name.len() == 0 {
        assert(path + name =~= path);
        assert(path_pieces(path).last() =~= name);
        assert(path_pieces(path).drop_last().push(name) =~= path_pieces(path));
    } else {
        assert((path + name).drop_last() =~= path + name.drop_last());
        assert(name[name.len() - 1] == name.last());
        assert forall|i: int| 0 <= i < name.drop_last().len() implies name.drop_last()[i]
            != '/' by {
            assert(name[i] == name.drop_last()[i]);
        }
        lemma_piece_grows(path, name.drop_last());
        assert(name.drop_last().push(name.last()) =~= name);
        assert(path_pieces(path + name) =~= path_pieces(path).drop_last().push(name));
    }
}

} // verus!
