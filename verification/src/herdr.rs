//! Herdr integration.
//!
//! Inside a herdr-managed pane, resuming a session opens a new herdr tab or split at the session's
//! working directory instead of suspending the terminal interface. Everything goes through the
//! `herdr` command line: the caller runs the commands that this module asks for, and hands back
//! what came of them.

use crate::config::UserConfig;
use crate::json;
use crate::json::Json;
use crate::text;
use crate::text::{owned, same, trim};
use std::path::PathBuf;
use vstd::prelude::*;

verus! {

broadcast use vstd::string::group_string_axioms;

/// Where resuming opens a session inside herdr.
#[derive(Clone, Copy, Debug, PartialEq, Eq, Structural)]
pub enum ResumePlacement {
    Tab,
    Split,
    Off,
}

/// True when running inside a herdr-managed pane, which is when the environment variable
/// `HERDR_ENV` has the value `1`.
pub fn inside_herdr(herdr_env: Option<&str>) -> (r: bool)
    ensures
        r == (text::opt_str(herdr_env) == Some("1"@)),
        r <==> herdr_env is Some && herdr_env->0@ == "1"@,
{
    match herdr_env {
        Some(value) => same(value, "1"),
        None => false,
    }
}

/// The herdr binary: the path in `HERDR_BIN_PATH` when it is set (herdr puts it into managed
/// panes), otherwise `herdr` on the search path.
pub fn herdr_bin(injected: Option<PathBuf>, on_path: Option<PathBuf>) -> (r: Option<PathBuf>)
    ensures
        injected is Some ==> r == injected,
        injected is None ==> r == on_path,
{
    match injected {
        Some(path) => Some(path),
        None => on_path,
    }
}

/// The placement that a configured value stands for: anything but `split` and `off` is a tab.
pub open spec fn placement_of(value: Option<Seq<char>>) -> ResumePlacement {
    if value == Some("split"@) {
        ResumePlacement::Split
    } else if value == Some("off"@) {
        ResumePlacement::Off
    } else {
        ResumePlacement::Tab
    }
}

/// Where resuming opens sessions inside herdr: the configuration key `herdr_resume`, one of `tab`
/// (the default), `split`, or `off` (suspend the terminal interface as usual).
pub fn resume_placement(config: &UserConfig) -> (r: ResumePlacement)
    ensures
        r == placement_of(text::opt_text(config.herdr_resume)),
{
    match &config.herdr_resume {
        Some(value) => {
            if same(value.as_str(), "split") {
                ResumePlacement::Split
            } else if same(value.as_str(), "off") {
                ResumePlacement::Off
            } else {
                ResumePlacement::Tab
            }
        },
        None => ResumePlacement::Tab,
    }
}

/// The texts of a list of string slices.
pub open spec fn key_texts(path: Seq<&str>) -> Seq<Seq<char>> {
    path.map_values(|key: &str| key@)
}

/// The value that is reached from `value` by going into one field after another.
pub open spec fn value_at(value: Json, path: Seq<Seq<char>>) -> Option<Json>
    decreases path.len(),
{
    if path.len() == 0 {
        Some(value)
    } else {
        match json::field(value, path[0]) {
            Some(inner) => value_at(inner, path.drop_first()),
            None => None,
        }
    }
}

/// The string that is reached from `value` by going into one field after another.
pub open spec fn text_reached(value: Json, path: Seq<Seq<char>>) -> Option<Seq<char>> {
    match value_at(value, path) {
        Some(inner) => json::text(inner),
        None => None,
    }
}

/// The string at the end of `path`, which names one field after another.
pub fn pane_id_at(value: &Json, path: &[&str]) -> (r: Option<String>)
    ensures
        text::opt_text(r) == text_reached(*value, key_texts(path@)),
{
    let mut current: &Json = value;
    let mut i: usize = 0;
    let ghost keys = key_texts(path@);
    assert(keys.skip(0) =~= keys);
    while i < path.len()
        invariant
            i <= path@.len(),
            keys == key_texts(path@),
            value_at(*value, keys) == value_at(*current, keys.skip(i as int)),
        decreases path@.len() - i,
    {
        assert(keys.skip(i as int)[0] == path@[i as int]@);
        assert(keys.skip(i as int).drop_first() =~= keys.skip(i + 1));
        match current.get(path[i]) {
            Some(inner) => {
                current = inner;
            },
            None => {
                return None;
            },
        }
        i += 1;
    }
    match current.as_text() {
        Some(id) => Some(owned(id)),
        None => None,
    }
}

/// A session to resume, with what the environment says of the pane that asks for it.
#[derive(Debug)]
pub struct ResumeRequest {
    pub placement: ResumePlacement,
    /// The directory to open. `None` for remote sessions, whose directory only exists on the
    /// remote machine.
    pub cwd: Option<String>,
    pub label: String,
    /// What to run in the new pane.
    pub command: String,
    /// The environment variable `HERDR_WORKSPACE_ID`.
    pub workspace_id: Option<String>,
    /// The environment variable `HERDR_PANE_ID`.
    pub pane_id: Option<String>,
}

/// What came of running a herdr command.
#[derive(Debug)]
pub enum CommandOutcome {
    /// The command could not be started.
    NotStarted { cause: String },
    /// The command ran to its end.
    Exited { success: bool, stdout: Vec<u8>, stderr: Vec<u8> },
}

/// Why a herdr command gave no usable response.
#[derive(Debug)]
pub enum CommandFailure {
    /// The command could not be started.
    NotStarted { cause: String },
    /// The command failed; this is what it wrote to its error output.
    Failed { stderr: String },
    /// The response is not JSON; this is what the parser says of it.
    Unparseable { error: serde_json::Error },
}

/// Why a session was not resumed in a pane of its own.
#[derive(Debug)]
pub enum ResumeError {
    BinaryNotFound,
    Disabled,
    CreateFailed { placement: ResumePlacement, failure: CommandFailure },
    NoPaneId { placement: ResumePlacement },
    RunNotStarted { cause: String },
    RunFailed { stderr: String },
}

/// What to do next.
#[derive(Debug)]
pub enum ResumeAction {
    /// Run the herdr binary with these arguments to open a pane.
    OpenPane { arguments: Vec<String> },
    /// Run the herdr binary with these arguments to start the command in the pane `pane_id`.
    RunInPane { pane_id: String, arguments: Vec<String> },
    /// Nothing is left to do.
    Stop { result: Result<String, ResumeError> },
}

/// `name` and its value, where there is one.
pub open spec fn option_words(name: Seq<char>, value: Option<Seq<char>>) -> Seq<Seq<char>> {
    match value {
        Some(value) => seq![name, value],
        None => seq![],
    }
}

/// The arguments that open a pane.
pub open spec fn create_words(request: ResumeRequest) -> Seq<Seq<char>> {
    match request.placement {
        ResumePlacement::Tab => seq!["tab"@, "create"@] + option_words(
            "--workspace"@,
            text::opt_text(request.workspace_id),
        ) + option_words("--cwd"@, text::opt_text(request.cwd)) + seq![
            "--label"@,
            request.label@,
            "--focus"@,
        ],
        _ => seq!["pane"@, "split"@] + option_words("--pane"@, text::opt_text(request.pane_id))
            + seq!["--direction"@, "right"@] + option_words("--cwd"@, text::opt_text(request.cwd))
            + seq!["--focus"@],
    }
}

/// Somewhere in `words`, `value` comes directly behind `name`.
pub open spec fn follows(words: Seq<Seq<char>>, name: Seq<char>, value: Seq<char>) -> bool {
    exists|i: int|
        0 <= i && i + 1 < words.len() && #[trigger] words[i] == name && words[i + 1] == value
}

/// A new tab or split opens at the working directory of the session, where it has one: a tab in the
/// workspace that asks for it and under the label of the session, a split to the right of the pane
/// that asks for it. The new pane gets the focus, and nothing else is asked for.
pub proof fn law_pane_opens_where_the_session_is(request: ResumeRequest)
    ensures
        ({
            let words = create_words(request);
            let given = |value: Option<String>|
                if value is Some {
                    2int
                } else {
                    0int
                };
            &&& request.cwd matches Some(dir) ==> follows(words, "--cwd"@, dir@)
            &&& words.last() == "--focus"@
            &&& request.placement is Tab ==> {
                &&& words[0] == "tab"@ && words[1] == "create"@
                &&& request.workspace_id matches Some(id) ==> follows(words, "--workspace"@, id@)
                &&& follows(words, "--label"@, request.label@)
                &&& words.len() == 5 + given(request.workspace_id) + given(request.cwd)
            }
            &&& request.placement is Split ==> {
                &&& words[0] == "pane"@ && words[1] == "split"@
                &&& request.pane_id matches Some(id) ==> follows(words, "--pane"@, id@)
                &&& follows(words, "--direction"@, "right"@)
                &&& words.len() == 5 + given(request.pane_id) + given(request.cwd)
            }
        }),
{
    let words = create_words(request);
    let n = words.len();
    if request.placement is Tab {
        let a: int = if request.workspace_id is Some {
            2
        } else {
            0
        };
        let b: int = if request.cwd is Some {
            2
        } else {
            0
        };
        assert(request.workspace_id is Some ==> words[2] == "--workspace"@);
        assert(request.cwd is Some ==> words[2 + a] == "--cwd"@);
        assert(words[2 + a + b] == "--label"@);
    } else {
        let a: int = if request.pane_id is Some {
            2
        } else {
            0
        };
        assert(request.pane_id is Some ==> words[2] == "--pane"@);
        assert(words[2 + a] == "--direction"@);
        assert(request.cwd is Some ==> words[4 + a] == "--cwd"@);
    }
}

/// Resuming splits the pane or stays off just where the configuration says so in that very word.
pub proof fn law_placement_is_what_is_configured(value: Option<Seq<char>>)
    ensures
        placement_of(value) is Split <==> value == Some("split"@),
        placement_of(value) is Off <==> value == Some("off"@),
{
    reveal_strlit("split");
    reveal_strlit("off");
    assert("split"@.len() != "off"@.len());
}

/// Where the response to opening a pane holds the id of the new pane.
pub open spec fn pane_id_path(placement: ResumePlacement) -> Seq<Seq<char>> {
    match placement {
        ResumePlacement::Tab => seq!["result"@, "root_pane"@, "pane_id"@],
        _ => seq!["result"@, "pane"@, "pane_id"@],
    }
}

/// Appends one argument.
fn push_word(words: &mut Vec<String>, word: &str)
    ensures
        text::texts(final(words)@) == text::texts(old(words)@).push(word@),
{
    words.push(owned(word));
    assert(text::texts(words@) =~= text::texts(old(words)@).push(word@));
}

/// Appends `name` and its value, where there is one.
fn push_option(words: &mut Vec<String>, name: &str, value: &Option<String>)
    ensures
        text::texts(final(words)@) == text::texts(old(words)@) + option_words(
            name@,
            text::opt_text(*value),
        ),
{
    if let Some(value) = value {
        push_word(words, name);
        push_word(words, value.as_str());
    }
    assert(text::texts(words@) =~= text::texts(old(words)@) + option_words(
        name@,
        text::opt_text(*value),
    ));
}

/// The arguments that open a pane.
fn create_arguments(request: &ResumeRequest) -> (r: Vec<String>)
    ensures
        text::texts(r@) == create_words(*request),
{
    let mut words: Vec<String> = Vec::new();
    match request.placement {
        ResumePlacement::Tab => {
            push_word(&mut words, "tab");
            push_word(&mut words, "create");
            push_option(&mut words, "--workspace", &request.workspace_id);
            push_option(&mut words, "--cwd", &request.cwd);
            push_word(&mut words, "--label");
            push_word(&mut words, request.label.as_str());
            push_word(&mut words, "--focus");
        },
        _ => {
            push_word(&mut words, "pane");
            push_word(&mut words, "split");
            push_option(&mut words, "--pane", &request.pane_id);
            push_word(&mut words, "--direction");
            push_word(&mut words, "right");
            push_option(&mut words, "--cwd", &request.cwd);
            push_word(&mut words, "--focus");
        },
    }
    assert(text::texts(words@) =~= create_words(*request));
    words
}

/// Opens a new herdr tab or split and runs `request.command` in it: the first step.
///
/// A pane is only asked for when the herdr binary was found and resuming in herdr is not switched
/// off. After the command has run, [`pane_opened`] takes over.
pub fn open_resume_pane(binary_found: bool, request: &ResumeRequest) -> (r: ResumeAction)
    ensures
        !binary_found ==> r == (ResumeAction::Stop { result: Err(ResumeError::BinaryNotFound) }),
        binary_found && request.placement is Off ==> r == (ResumeAction::Stop {
            result: Err(ResumeError::Disabled),
        }),
        binary_found && !(request.placement is Off) ==> {
            &&& r matches ResumeAction::OpenPane { arguments }
            &&& text::texts(arguments@) == create_words(*request)
        },
        r matches ResumeAction::OpenPane { arguments } ==> {
            let words = text::texts(arguments@);
            &&& request.cwd matches Some(dir) ==> follows(words, "--cwd"@, dir@)
            &&& request.placement is Split ==> (request.pane_id matches Some(id) ==> follows(
                words,
                "--pane"@,
                id@,
            ))
            &&& request.placement is Tab ==> follows(words, "--label"@, request.label@)
        },
{
    proof {
        law_pane_opens_where_the_session_is(*request);
    }
    if !binary_found {
        return ResumeAction::Stop { result: Err(ResumeError::BinaryNotFound) };
    }
    match request.placement {
        ResumePlacement::Off => ResumeAction::Stop { result: Err(ResumeError::Disabled) },
        _ => ResumeAction::OpenPane { arguments: create_arguments(request) },
    }
}

/// What `String::from_utf8_lossy` makes of bytes.
pub uninterp spec fn lossy_text(bytes: Seq<u8>) -> Seq<char>;

/// Calls `String::from_utf8_lossy`. The result depends on the bytes alone, and valid UTF-8 is
/// decoded as it stands.
#[verifier::external_body]
fn lossy(bytes: &[u8]) -> (r: String)
    ensures
        r@ == lossy_text(bytes@),
        vstd::utf8::valid_utf8(bytes@) ==> r@ == vstd::utf8::decode_utf8(bytes@),
{
    String::from_utf8_lossy(bytes).into_owned()
}

/// Error output as it is reported: decoded and trimmed.
pub open spec fn reported(stderr: Seq<u8>) -> Seq<char> {
    text::trimmed(lossy_text(stderr))
}

/// The JSON response of a herdr command.
pub fn run_json(outcome: CommandOutcome) -> (r: Result<Json, CommandFailure>)
    ensures
        match outcome {
            CommandOutcome::NotStarted { cause } => r == Err::<Json, _>(
                CommandFailure::NotStarted { cause },
            ),
            CommandOutcome::Exited { success, stdout, stderr } => if !success {
                r matches Err(CommandFailure::Failed { stderr: shown }) && shown@ == reported(
                    stderr@,
                )
            } else {
                match json::json_of_bytes(stdout@) {
                    Ok(value) => r == Ok::<_, CommandFailure>(value),
                    Err(error) => r == Err::<Json, _>(CommandFailure::Unparseable { error }),
                }
            },
        },
        r is Ok ==> outcome is Exited && outcome->success,
        r matches Err(CommandFailure::Failed { .. }) ==> outcome is Exited && !outcome->success,
        r matches Err(CommandFailure::NotStarted { .. }) <==> outcome is NotStarted,
{
    match outcome {
        CommandOutcome::NotStarted { cause } => Err(CommandFailure::NotStarted { cause }),
        CommandOutcome::Exited { success, stdout, stderr } => {
            if !success {
                let decoded = lossy(stderr.as_slice());
                return Err(CommandFailure::Failed { stderr: owned(trim(decoded.as_str())) });
            }
            match json::parse_bytes(stdout.as_slice()) {
                Ok(value) => Ok(value),
                Err(error) => Err(CommandFailure::Unparseable { error }),
            }
        },
    }
}

/// The id of the pane that a response says was opened.
pub fn opened_pane(placement: ResumePlacement, response: &Json) -> (r: Result<String, ResumeError>)
    ensures
        match text_reached(*response, pane_id_path(placement)) {
            Some(id) => r matches Ok(pane_id) && pane_id@ == id,
            None => r == Err::<String, _>(ResumeError::NoPaneId { placement }),
        },
{
    let found = match placement {
        ResumePlacement::Tab => {
            let path: [&str; 3] = ["result", "root_pane", "pane_id"];
            assert(key_texts(path@) =~= pane_id_path(placement));
            pane_id_at(response, &path)
        },
        _ => {
            let path: [&str; 3] = ["result", "pane", "pane_id"];
            assert(key_texts(path@) =~= pane_id_path(placement));
            pane_id_at(response, &path)
        },
    };
    match found {
        Some(pane_id) => Ok(pane_id),
        None => Err(ResumeError::NoPaneId { placement }),
    }
}

/// The second step of resuming: the pane is open, so the command is started in it.
///
/// The response to the first step decides. After the command has run, [`command_started`] takes
/// over.
pub fn pane_opened(request: &ResumeRequest, outcome: CommandOutcome) -> (r: ResumeAction)
    ensures
        match outcome {
            CommandOutcome::NotStarted { cause } => r == (ResumeAction::Stop {
                result: Err(
                    ResumeError::CreateFailed {
                        placement: request.placement,
                        failure: CommandFailure::NotStarted { cause },
                    },
                ),
            }),
            CommandOutcome::Exited { success, stdout, stderr } => if !success {
                &&& r matches ResumeAction::Stop { result }
                &&& result matches Err(ResumeError::CreateFailed { placement, failure })
                &&& placement == request.placement
                &&& failure matches CommandFailure::Failed { stderr: shown }
                &&& shown@ == reported(stderr@)
            } else {
                match json::json_of_bytes(stdout@) {
                    Ok(response) => match text_reached(
                        response,
                        pane_id_path(request.placement),
                    ) {
                        Some(id) => r matches ResumeAction::RunInPane { pane_id, arguments }
                            && pane_id@ == id && text::texts(arguments@) == seq![
                            "pane"@,
                            "run"@,
                            id,
                            request.command@,
                        ],
                        None => r == (ResumeAction::Stop {
                            result: Err(ResumeError::NoPaneId { placement: request.placement }),
                        }),
                    },
                    Err(error) => r == (ResumeAction::Stop {
                        result: Err(
                            ResumeError::CreateFailed {
                                placement: request.placement,
                                failure: CommandFailure::Unparseable { error },
                            },
                        ),
                    }),
                }
            },
        },
        r matches ResumeAction::RunInPane { pane_id, arguments } ==> {
            &&& outcome is Exited && outcome->success
            &&& arguments@.len() == 4
            &&& arguments@[0]@ == "pane"@ && arguments@[1]@ == "run"@
            &&& arguments@[2]@ == pane_id@
            &&& arguments@[3]@ == request.command@
        },
        !(r is OpenPane),
        r matches ResumeAction::Stop { result } ==> result is Err,
{
    let placement = request.placement;
    let response = match run_json(outcome) {
        Ok(response) => response,
        Err(failure) => {
            return ResumeAction::Stop {
                result: Err(ResumeError::CreateFailed { placement, failure }),
            };
        },
    };
    match opened_pane(placement, &response) {
        Ok(pane_id) => {
            let mut words: Vec<String> = Vec::new();
            push_word(&mut words, "pane");
            push_word(&mut words, "run");
            push_word(&mut words, pane_id.as_str());
            push_word(&mut words, request.command.as_str());
            assert(text::texts(words@) =~= seq!["pane"@, "run"@, pane_id@, request.command@]);
            assert(forall|i: int|
                0 <= i < words@.len() ==> #[trigger] text::texts(words@)[i] == words@[i]@);
            assert(words@.len() == text::texts(words@).len());
            assert(text::texts(words@)[0] == words@[0]@ && text::texts(words@)[1] == words@[1]@);
            assert(text::texts(words@)[2] == words@[2]@ && text::texts(words@)[3] == words@[3]@);
            ResumeAction::RunInPane { pane_id, arguments: words }
        },
        Err(error) => ResumeAction::Stop { result: Err(error) },
    }
}

/// The last step of resuming: the id of the new pane, if the command was started in it.
pub fn command_started(pane_id: String, outcome: CommandOutcome) -> (r: Result<String, ResumeError>)
    ensures
        match outcome {
            CommandOutcome::NotStarted { cause } => r == Err::<String, _>(
                ResumeError::RunNotStarted { cause },
            ),
            CommandOutcome::Exited { success, stdout, stderr } => if success {
                r == Ok::<_, ResumeError>(pane_id)
            } else {
                r matches Err(ResumeError::RunFailed { stderr: shown }) && shown@ == reported(
                    stderr@,
                )
            },
        },
        r is Ok <==> outcome is Exited && outcome->success,
        r matches Ok(id) ==> id == pane_id,
{
    match outcome {
        CommandOutcome::NotStarted { cause } => Err(ResumeError::RunNotStarted { cause }),
        CommandOutcome::Exited { success, stdout, stderr } => {
            if success {
                return Ok(pane_id);
            }
            let decoded = lossy(stderr.as_slice());
            Err(ResumeError::RunFailed { stderr: owned(trim(decoded.as_str())) })
        },
    }
}

/// What an error says, without its cause.
pub open spec fn error_text(error: ResumeError) -> Seq<char> {
    match error {
        ResumeError::BinaryNotFound => "herdr binary not found"@,
        ResumeError::Disabled => "herdr resume is disabled"@,
        ResumeError::CreateFailed { placement, failure } => if placement is Tab {
            "herdr tab create failed"@
        } else {
            "herdr pane split failed"@
        },
        ResumeError::NoPaneId { placement } => if placement is Tab {
            "herdr tab create returned no root pane id"@
        } else {
            "herdr pane split returned no pane id"@
        },
        ResumeError::RunNotStarted { cause } => "herdr pane run failed"@,
        ResumeError::RunFailed { stderr } => "herdr pane run failed: "@ + stderr@,
    }
}

impl ResumeError {
    /// What this error says, without its cause.
    pub fn message(&self) -> (r: String)
        ensures
            r@ == error_text(*self),
    {
        match self {
            ResumeError::BinaryNotFound => owned("herdr binary not found"),
            ResumeError::Disabled => owned("herdr resume is disabled"),
            ResumeError::CreateFailed { placement, failure } => match placement {
                ResumePlacement::Tab => owned("herdr tab create failed"),
                _ => owned("herdr pane split failed"),
            },
            ResumeError::NoPaneId { placement } => match placement {
                ResumePlacement::Tab => owned("herdr tab create returned no root pane id"),
                _ => owned("herdr pane split returned no pane id"),
            },
            ResumeError::RunNotStarted { cause } => owned("herdr pane run failed"),
            ResumeError::RunFailed { stderr } => {
                let mut message = owned("herdr pane run failed: ");
                message.append(stderr.as_str());
                message
            },
        }
    }
}

/// The id of a new pane is the string in the field `pane_id` of the pane that the result of the
/// response tells of: the root pane for a tab, and the pane for a split.
pub proof fn law_pane_id_is_read_from_the_response(placement: ResumePlacement, response: Json)
    ensures
        ({
            let pane = if placement is Tab {
                "root_pane"@
            } else {
                "pane"@
            };
            let found = text_reached(response, pane_id_path(placement));
            match json::field(response, "result"@) {
                Some(result) => match json::field(result, pane) {
                    Some(opened) => found == json::text_field(opened, "pane_id"@),
                    None => found is None,
                },
                None => found is None,
            }
        }),
{
    let path = pane_id_path(placement);
    reveal_with_fuel(value_at, 4);
    assert(path.drop_first().drop_first()[0] == "pane_id"@);
    assert(path.drop_first()[0] == path[1]);
    assert(path.drop_first().drop_first().drop_first().len() == 0);
}

/// Going into fields one after another is going into the first few and then into the rest.
pub proof fn law_paths_can_be_taken_in_steps(
    value: Json,
    path: Seq<Seq<char>>,
    more: Seq<Seq<char>>,
)
    ensures
        value_at(value, path + more) == match value_at(value, path) {
            Some(inner) => value_at(inner, more),
            None => None,
        },
    decreases path.len(),
{
    if path.len() == 0 {
        assert(path + more =~= more);
    } else {
        assert((path + more).drop_first() =~= path.drop_first() + more);
        match json::field(value, path[0]) {
            Some(inner) => law_paths_can_be_taken_in_steps(inner, path.drop_first(), more),
            None => {},
        }
    }
}

/// What a command wrote to its error output is in the message that it failed.
pub proof fn law_failures_to_run_are_quoted(stderr: String)
    ensures
        stderr@.is_suffix_of(error_text(ResumeError::RunFailed { stderr })),
        "herdr pane run failed: "@.is_prefix_of(error_text(ResumeError::RunFailed { stderr })),
        error_text(ResumeError::RunFailed { stderr }).len() == "herdr pane run failed: "@.len()
            + stderr@.len(),
{
    let head = "herdr pane run failed: "@;
    let all = error_text(ResumeError::RunFailed { stderr });
    assert(all.subrange(0, head.len() as int) =~= head);
    assert(all.subrange(head.len() as int, all.len() as int) =~= stderr@);
}

} // verus!
