//! The application-chooser resolution engine.
//!
//! Per request, the engine turns a (content type, candidate list)
//! request into exactly one launched command. It is a state machine:
//! `start` and `step` make every decision and are verified; the
//! surrounding binary performs the outside work each returned action
//! asks for — resolving descriptor files, running the interactive
//! picker, spawning the final command — and feeds the outcome back as
//! an event.

use vstd::prelude::*;
use vstd::string::StringExecFns;

use crate::command::{clone_string_vec, Command, CommandView};
use crate::desktop::{
    parse_desktop_entry, parse_entries, parsed_entry, resolved_entries, DesktopEntry, DesktopEntryView, RawDesktopEntry,
    RawDesktopEntryView,
};
use crate::picker::RunCommandError;
use crate::text::{
    decimal_of, str_eq, strip_prefix_all, strip_prefix_rep, trim_char_ends, trim_spaces, trimmed,
    trimmed_char, u32_decimal,
};
use crate::wildcard::{first_match, match_indices, table_keys, wildcard_get};

verus! {

/// Which interactive picker backend is configured. One backend exists
/// today: a dmenu-style command fed options on its input stream.
#[derive(Debug)]
pub enum RunnerType {
    Dmenu(Command),
}

/// Mathematical model of a runner choice.
#[verifier::ext_equal]
pub ghost enum RunnerTypeView {
    Dmenu(CommandView),
}

impl View for RunnerType {
    type V = RunnerTypeView;

    open spec fn view(&self) -> RunnerTypeView {
        match self {
            RunnerType::Dmenu(c) => RunnerTypeView::Dmenu(c@),
        }
    }
}

impl Clone for RunnerType {
    fn clone(&self) -> (res: Self)
        ensures
            res@ == self@,
    {
        match self {
            RunnerType::Dmenu(c) => RunnerType::Dmenu(c.clone()),
        }
    }
}

/// Copies a vector of commands, element for element.
pub fn clone_command_vec(v: &Vec<Command>) -> (r: Vec<Command>)
    ensures
        r.deep_view() == v.deep_view(),
{
    let mut r: Vec<Command> = Vec::new();
    let mut i: usize = 0;
    while i < v.len()
        invariant
            0 <= i <= v@.len(),
            r.deep_view() == v.deep_view().take(i as int),
        decreases v@.len() - i,
    {
        let ghost prev = r.deep_view();
        r.push(v[i].clone());
        proof {
            assert(r.deep_view() =~= prev.push(v@[i as int]@));
            assert(r.deep_view() =~= v.deep_view().take(i + 1));
        }
        i = i + 1;
    }
    proof {
        assert(v.deep_view().take(v@.len() as int) =~= v.deep_view());
    }
    r
}

/// One entry of the defaults table: what a matched content type maps
/// to. A command is used directly; a list of either shape is put to the
/// human through the picker; desktop-entry identifiers go through the
/// resolver first.
#[derive(Debug)]
pub enum DefaultMapping {
    Command(Command),
    CommandChoice(Vec<Command>),
    DesktopFile(String),
    DesktopFileChoice(Vec<String>),
}

/// Mathematical model of a defaults-table entry.
#[verifier::ext_equal]
pub ghost enum DefaultMappingView {
    Command(CommandView),
    CommandChoice(Seq<CommandView>),
    DesktopFile(Seq<char>),
    DesktopFileChoice(Seq<Seq<char>>),
}

impl View for DefaultMapping {
    type V = DefaultMappingView;

    open spec fn view(&self) -> DefaultMappingView {
        match self {
            DefaultMapping::Command(c) => DefaultMappingView::Command(c@),
            DefaultMapping::CommandChoice(cs) => DefaultMappingView::CommandChoice(cs.deep_view()),
            DefaultMapping::DesktopFile(s) => DefaultMappingView::DesktopFile(s@),
            DefaultMapping::DesktopFileChoice(ss) => DefaultMappingView::DesktopFileChoice(
                ss.deep_view(),
            ),
        }
    }
}

impl Clone for DefaultMapping {
    fn clone(&self) -> (res: Self)
        ensures
            res@ == self@,
    {
        let res = match self {
            DefaultMapping::Command(c) => DefaultMapping::Command(c.clone()),
            DefaultMapping::CommandChoice(cs) => DefaultMapping::CommandChoice(
                clone_command_vec(cs),
            ),
            DefaultMapping::DesktopFile(s) => DefaultMapping::DesktopFile(s.clone()),
            DefaultMapping::DesktopFileChoice(ss) => DefaultMapping::DesktopFileChoice(
                clone_string_vec(ss),
            ),
        };
        proof {
            assert(res@ =~= self@);
        }
        res
    }
}

/// Static chooser configuration: whether the portal serves, the picker
/// backend, and the content-type defaults table, ordered, first match
/// winning.
#[derive(Debug)]
pub struct AppChooserConfig {
    pub enabled: bool,
    pub runner: Option<RunnerType>,
    pub defaults: Vec<(String, DefaultMapping)>,
}

/// A pre-decoded "choose application" request: the candidate
/// identifiers and the inspected options.
#[derive(Debug)]
pub struct ChooserRequest {
    pub choices: Vec<String>,
    pub uri: Option<String>,
    pub content_type: Option<String>,
    pub activation_token: Option<String>,
}

/// Mathematical model of a request.
#[verifier::ext_equal]
pub ghost struct ChooserRequestView {
    pub choices: Seq<Seq<char>>,
    pub uri: Option<Seq<char>>,
    pub content_type: Option<Seq<char>>,
    pub activation_token: Option<Seq<char>>,
}

impl View for ChooserRequest {
    type V = ChooserRequestView;

    open spec fn view(&self) -> ChooserRequestView {
        ChooserRequestView {
            choices: self.choices.deep_view(),
            uri: match self.uri {
                Option::Some(ref s) => Option::Some(s@),
                Option::None => Option::None,
            },
            content_type: match self.content_type {
                Option::Some(ref s) => Option::Some(s@),
                Option::None => Option::None,
            },
            activation_token: match self.activation_token {
                Option::Some(ref s) => Option::Some(s@),
                Option::None => Option::None,
            },
        }
    }
}

/// Why a chooser request failed; the whole request is answered with one
/// such failure.
#[derive(Clone, Copy, PartialEq, Eq, Structural, Debug)]
pub enum ChooserError {
    /// No picker backend is configured.
    ConfigurationMissing,
    /// The request lacks its URI or content type, or carries no
    /// candidates where candidates are needed.
    RequestInvalid,
    /// A desktop entry a mapping names could not be resolved.
    ResolutionNotFound,
    /// The picker failed, or its selection matches no option.
    PickerFailure,
    /// The final launch failed.
    ExecutionFailure,
}

/// A successful chooser response: result code, the resolved program,
/// and the activation token handed back.
#[derive(Debug)]
pub struct ChooserResponse {
    pub code: u32,
    pub app_id: String,
    pub activation_token: String,
}

/// Mathematical model of a response.
#[verifier::ext_equal]
pub ghost struct ChooserResponseView {
    pub code: u32,
    pub app_id: Seq<char>,
    pub activation_token: Seq<char>,
}

impl View for ChooserResponse {
    type V = ChooserResponseView;

    open spec fn view(&self) -> ChooserResponseView {
        ChooserResponseView {
            code: self.code,
            app_id: self.app_id@,
            activation_token: self.activation_token@,
        }
    }
}

/// What the surrounding binary must do next.
#[derive(Debug)]
pub enum ChooserAction {
    /// Resolve each identifier to the raw fields of its first matching
    /// descriptor file, in the given order.
    ResolveEntries { ids: Vec<String> },
    /// Run the picker with the given options on its input stream and
    /// read back the chosen line.
    RunPicker { picker: Command, options: Vec<String> },
    /// Spawn the command, detached, and report whether the spawn
    /// succeeded.
    Launch { command: Command },
    /// Terminal: answer the request with this success response.
    Respond { response: ChooserResponse },
    /// Terminal: answer the request with this failure.
    Fail { error: ChooserError },
}

/// Mathematical model of an action.
#[verifier::ext_equal]
pub ghost enum ChooserActionView {
    ResolveEntries { ids: Seq<Seq<char>> },
    RunPicker { picker: CommandView, options: Seq<Seq<char>> },
    Launch { command: CommandView },
    Respond { response: ChooserResponseView },
    Fail { error: ChooserError },
}

impl View for ChooserAction {
    type V = ChooserActionView;

    open spec fn view(&self) -> ChooserActionView {
        match self {
            ChooserAction::ResolveEntries { ids } => ChooserActionView::ResolveEntries {
                ids: ids.deep_view(),
            },
            ChooserAction::RunPicker { picker, options } => ChooserActionView::RunPicker {
                picker: picker@,
                options: options.deep_view(),
            },
            ChooserAction::Launch { command } => ChooserActionView::Launch { command: command@ },
            ChooserAction::Respond { response } => ChooserActionView::Respond {
                response: response@,
            },
            ChooserAction::Fail { error } => ChooserActionView::Fail { error: *error },
        }
    }
}

/// Where a request stands between two outside actions.
#[derive(Debug)]
pub enum ChooserState {
    /// Waiting for the picker's choice among commands.
    PickingCommand { candidates: Vec<Command>, uri: String, token: String },
    /// Waiting for the one desktop entry a mapping names.
    ResolvingMappingEntry { uri: String, token: String },
    /// Waiting for the desktop entries a mapping lists.
    ResolvingMappingEntries { uri: String, token: String },
    /// Waiting for the desktop entries of the request's candidates.
    ResolvingChoiceEntries { uri: String, token: String },
    /// Waiting for the picker's choice among resolved entries.
    PickingEntry { entries: Vec<DesktopEntry>, uri: String, token: String },
    /// Waiting for the final, detached launch.
    Launching { app_id: String, token: String },
    /// The request is answered.
    Finished,
}

/// Mathematical model of a state.
#[verifier::ext_equal]
pub ghost enum ChooserStateView {
    PickingCommand { candidates: Seq<CommandView>, uri: Seq<char>, token: Seq<char> },
    ResolvingMappingEntry { uri: Seq<char>, token: Seq<char> },
    ResolvingMappingEntries { uri: Seq<char>, token: Seq<char> },
    ResolvingChoiceEntries { uri: Seq<char>, token: Seq<char> },
    PickingEntry { entries: Seq<DesktopEntryView>, uri: Seq<char>, token: Seq<char> },
    Launching { app_id: Seq<char>, token: Seq<char> },
    Finished,
}

impl View for ChooserState {
    type V = ChooserStateView;

    open spec fn view(&self) -> ChooserStateView {
        match self {
            ChooserState::PickingCommand { candidates, uri, token } => (
            ChooserStateView::PickingCommand {
                candidates: candidates.deep_view(),
                uri: uri@,
                token: token@,
            }),
            ChooserState::ResolvingMappingEntry { uri, token } => (
            ChooserStateView::ResolvingMappingEntry { uri: uri@, token: token@ }),
            ChooserState::ResolvingMappingEntries { uri, token } => (
            ChooserStateView::ResolvingMappingEntries { uri: uri@, token: token@ }),
            ChooserState::ResolvingChoiceEntries { uri, token } => (
            ChooserStateView::ResolvingChoiceEntries { uri: uri@, token: token@ }),
            ChooserState::PickingEntry { entries, uri, token } => (
            ChooserStateView::PickingEntry {
                entries: entries.deep_view(),
                uri: uri@,
                token: token@,
            }),
            ChooserState::Launching { app_id, token } => (
            ChooserStateView::Launching { app_id: app_id@, token: token@ }),
            ChooserState::Finished => ChooserStateView::Finished,
        }
    }
}

/// What the surrounding binary hands back after performing an action.
#[derive(Debug)]
pub enum ChooserEvent {
    /// The raw descriptor fields of each requested identifier, in
    /// request order; absent where no descriptor file was found.
    EntriesResolved { entries: Vec<Option<RawDesktopEntry>> },
    /// The picker's decoded output, or why it failed.
    PickerFinished { output: Result<String, RunCommandError> },
    /// Whether the final spawn succeeded.
    LaunchFinished { outcome: Result<(), RunCommandError> },
}

/// Mathematical model of an event.
#[verifier::ext_equal]
pub ghost enum ChooserEventView {
    EntriesResolved { entries: Seq<Option<RawDesktopEntryView>> },
    PickerFinished { output: Result<Seq<char>, crate::picker::RunCommandErrorView> },
    LaunchFinished { outcome: Result<(), crate::picker::RunCommandErrorView> },
}

impl View for ChooserEvent {
    type V = ChooserEventView;

    open spec fn view(&self) -> ChooserEventView {
        match self {
            ChooserEvent::EntriesResolved { entries } => ChooserEventView::EntriesResolved {
                entries: entries.deep_view(),
            },
            ChooserEvent::PickerFinished { output } => ChooserEventView::PickerFinished {
                output: match output {
                    Result::Ok(s) => Result::Ok(s@),
                    Result::Err(e) => Result::Err(e@),
                },
            },
            ChooserEvent::LaunchFinished { outcome } => ChooserEventView::LaunchFinished {
                outcome: match outcome {
                    Result::Ok(u) => Result::Ok(*u),
                    Result::Err(e) => Result::Err(e@),
                },
            },
        }
    }
}

/// The chooser portal service: the resolved terminal path and the
/// immutable configuration, shared read-only across requests.
#[derive(Debug)]
pub struct AppChooserService {
    pub terminal_path: String,
    pub config: AppChooserConfig,
}

/// A request's URI, normalized: surrounding quotes stripped, then every
/// leading `file://` scheme prefix stripped.
pub open spec fn norm_uri(u: Seq<char>) -> Seq<char> {
    strip_prefix_rep(trimmed_char(u, '"'), "file://"@)
}

/// A request's content type, normalized: surrounding quotes stripped.
pub open spec fn norm_content_type(c: Seq<char>) -> Seq<char> {
    trimmed_char(c, '"')
}

/// Normalizes a request URI.
pub fn normalize_uri(u: &str) -> (r: String)
    ensures
        r@ == norm_uri(u@),
{
    let quoteless = trim_char_ends(u, '"');
    proof {
        reveal_strlit("file://");
    }
    strip_prefix_all(quoteless.as_str(), "file://")
}

/// Normalizes a request content type.
pub fn normalize_content_type(c: &str) -> (r: String)
    ensures
        r@ == norm_content_type(c@),
{
    trim_char_ends(c, '"')
}

/// A synthesized activation token: the fixed prefix and a decimal
/// number.
pub open spec fn synth_token(n: int) -> Seq<char> {
    "token-"@ + decimal_of(n)
}

/// Whether `t` is an acceptable activation token for the request: the
/// request's own token where it carries one, else a synthesized one.
pub open spec fn token_matches(req: ChooserRequestView, t: Seq<char>) -> bool {
    match req.activation_token {
        Option::Some(a) => t == a,
        Option::None => exists|n: int| 0 <= n <= u32::MAX && t == synth_token(n),
    }
}

/// Relies on `rand::random`: draws a fresh pseudo-random 32-bit value.
/// Nothing is assumed about which value comes back.
#[verifier::external_body]
fn random_u32() -> u32 {
    rand::random::<u32>()
}

/// Synthesizes a fresh activation token.
fn fresh_token() -> (t: String)
    ensures
        exists|n: int| 0 <= n <= u32::MAX && t@ == synth_token(n),
{
    let n = random_u32();
    let mut t = "token-".to_owned();
    let digits = u32_decimal(n);
    t.append(digits.as_str());
    proof {
        assert(t@ == synth_token(n as int));
    }
    t
}

/// The defaults-table entry the content type selects: the first entry
/// whose key wildcard-matches it, if any.
pub open spec fn mapping_lookup(defaults: Seq<(String, DefaultMapping)>, ct: Seq<char>) -> Option<
    DefaultMappingView,
> {
    if match_indices(table_keys(defaults), ct).len() > 0 {
        Option::Some(defaults[first_match(table_keys(defaults), ct)].1@)
    } else {
        Option::None
    }
}

/// The program names of a command list, in order: the options a picker
/// presents for a command choice.
pub open spec fn program_names(cs: Seq<CommandView>) -> Seq<Seq<char>> {
    Seq::new(cs.len(), |i: int| cs[i].program)
}

/// The display names of an entry list, in order: the options a picker
/// presents for a desktop-entry choice.
pub open spec fn display_names(es: Seq<DesktopEntryView>) -> Seq<Seq<char>> {
    Seq::new(es.len(), |i: int| es[i].name)
}

/// The first position whose command is named `sel`, or `cs.len()` if
/// none is.
pub open spec fn command_match(cs: Seq<CommandView>, sel: Seq<char>) -> int
    decreases cs.len(),
{
    if cs.len() == 0 {
        0
    } else if cs[0].program == sel {
        0
    } else {
        1 + command_match(cs.drop_first(), sel)
    }
}

/// The first position whose entry is displayed as `sel`, or `es.len()`
/// if none is.
pub open spec fn entry_match(es: Seq<DesktopEntryView>, sel: Seq<char>) -> int
    decreases es.len(),
{
    if es.len() == 0 {
        0
    } else if es[0].name == sel {
        0
    } else {
        1 + entry_match(es.drop_first(), sel)
    }
}

/// `command_match` is pinned down by its characteristic properties.
pub proof fn lemma_command_match_unique(cs: Seq<CommandView>, sel: Seq<char>, i: int)
    requires
        0 <= i <= cs.len(),
        forall|j: int| 0 <= j < i ==> (#[trigger] cs[j]).program != sel,
        i < cs.len() ==> cs[i].program == sel,
    ensures
        command_match(cs, sel) == i,
    decreases cs.len(),
{
    if cs.len() == 0 {
    } else if cs[0].program == sel {
        assert(i == 0);
    } else {
        assert(i > 0);
        assert forall|j: int| 0 <= j < i - 1 implies (#[trigger] cs.drop_first()[j]).program
            != sel by {
            assert(cs.drop_first()[j] == cs[j + 1]);
        }
        if i - 1 < cs.drop_first().len() {
            assert(cs.drop_first()[i - 1] == cs[i]);
        }
        lemma_command_match_unique(cs.drop_first(), sel, i - 1);
    }
}

/// `entry_match` is pinned down by its characteristic properties.
pub proof fn lemma_entry_match_unique(es: Seq<DesktopEntryView>, sel: Seq<char>, i: int)
    requires
        0 <= i <= es.len(),
        forall|j: int| 0 <= j < i ==> (#[trigger] es[j]).name != sel,
        i < es.len() ==> es[i].name == sel,
    ensures
        entry_match(es, sel) == i,
    decreases es.len(),
{
    if es.len() == 0 {
    } else if es[0].name == sel {
        assert(i == 0);
    } else {
        assert(i > 0);
        assert forall|j: int| 0 <= j < i - 1 implies (#[trigger] es.drop_first()[j]).name != sel by {
            assert(es.drop_first()[j] == es[j + 1]);
        }
        if i - 1 < es.drop_first().len() {
            assert(es.drop_first()[i - 1] == es[i]);
        }
        lemma_entry_match_unique(es.drop_first(), sel, i - 1);
    }
}

/// The first command of `cands` named `sel`, as a position.
fn find_command(cands: &Vec<Command>, sel: &str) -> (r: Option<usize>)
    ensures
        r is Some <==> command_match(cands.deep_view(), sel@) < cands.deep_view().len(),
        r is Some ==> r->0 == command_match(cands.deep_view(), sel@),
    {
    let mut i: usize = 0;
    while i < cands.len()
        invariant
            0 <= i <= cands@.len(),
            forall|j: int| 0 <= j < i ==> (#[trigger] cands.deep_view()[j]).program != sel@,
        decreases cands@.len() - i,
    {
        if str_eq(cands[i].command.as_str(), sel) {
            proof {
                lemma_command_match_unique(cands.deep_view(), sel@, i as int);
            }
            return Option::Some(i);
        }
        i = i + 1;
    }
    proof {
        lemma_command_match_unique(cands.deep_view(), sel@, cands.deep_view().len() as int);
    }
    Option::None
}

/// The first entry of `es` displayed as `sel`, as a position.
fn find_entry(es: &Vec<DesktopEntry>, sel: &str) -> (r: Option<usize>)
    ensures
        r is Some <==> entry_match(es.deep_view(), sel@) < es.deep_view().len(),
        r is Some ==> r->0 == entry_match(es.deep_view(), sel@),
    {
    let mut i: usize = 0;
    while i < es.len()
        invariant
            0 <= i <= es@.len(),
            forall|j: int| 0 <= j < i ==> (#[trigger] es.deep_view()[j]).name != sel@,
        decreases es@.len() - i,
    {
        if str_eq(es[i].name.as_str(), sel) {
            proof {
                lemma_entry_match_unique(es.deep_view(), sel@, i as int);
            }
            return Option::Some(i);
        }
        i = i + 1;
    }
    proof {
        lemma_entry_match_unique(es.deep_view(), sel@, es.deep_view().len() as int);
    }
    Option::None
}

/// The program names of a command list.
fn command_names(v: &Vec<Command>) -> (r: Vec<String>)
    ensures
        r.deep_view() == program_names(v.deep_view()),
{
    let mut r: Vec<String> = Vec::new();
    let mut i: usize = 0;
    while i < v.len()
        invariant
            0 <= i <= v@.len(),
            r.deep_view() =~= program_names(v.deep_view()).take(i as int),
        decreases v@.len() - i,
    {
        let ghost prev = r.deep_view();
        r.push(v[i].command.clone());
        proof {
            assert(r.deep_view() =~= prev.push(v@[i as int].command@));
            assert(r.deep_view() =~= program_names(v.deep_view()).take(i + 1));
        }
        i = i + 1;
    }
    proof {
        assert(program_names(v.deep_view()).take(v@.len() as int) =~= program_names(v.deep_view()));
    }
    r
}

/// The display names of an entry list.
fn entry_names(v: &Vec<DesktopEntry>) -> (r: Vec<String>)
    ensures
        r.deep_view() == display_names(v.deep_view()),
{
    let mut r: Vec<String> = Vec::new();
    let mut i: usize = 0;
    while i < v.len()
        invariant
            0 <= i <= v@.len(),
            r.deep_view() =~= display_names(v.deep_view()).take(i as int),
        decreases v@.len() - i,
    {
        let ghost prev = r.deep_view();
        r.push(v[i].name.clone());
        proof {
            assert(r.deep_view() =~= prev.push(v@[i as int].name@));
            assert(r.deep_view() =~= display_names(v.deep_view()).take(i + 1));
        }
        i = i + 1;
    }
    proof {
        assert(display_names(v.deep_view()).take(v@.len() as int) =~= display_names(v.deep_view()));
    }
    r
}

/// The command that launches a resolved entry against a target file:
/// the entry's command, terminal-wrapped when the entry asks for it,
/// with the file appended.
pub open spec fn entry_launch(e: DesktopEntryView, term: Seq<char>, uri: Seq<char>) -> CommandView {
    let base = if e.is_terminal {
        CommandView {
            program: term,
            arguments: seq![seq!['-', 'e'], e.exec_cmd.program] + e.exec_cmd.arguments,
        }
    } else {
        e.exec_cmd
    };
    CommandView { program: base.program, arguments: base.arguments.push(uri) }
}

/// Builds the launch command of a resolved entry.
fn launch_for_entry(entry: &DesktopEntry, terminal_path: &str, uri: String) -> (r: Command)
    ensures
        r@ == entry_launch(entry@, terminal_path@, uri@),
{
    let base = entry.command(terminal_path);
    let r = base.with_input_file(uri);
    proof {
        assert(r@ =~= entry_launch(entry@, terminal_path@, r@.arguments.last()));
    }
    r
}

/// What a possibly missing raw descriptor resolves to.
pub open spec fn entry_of(raw: Option<RawDesktopEntryView>) -> Option<DesktopEntryView> {
    match raw {
        Option::None => Option::None,
        Option::Some(rv) => parsed_entry(rv),
    }
}

/// What `start` returns, case by case: the preconditions of a request,
/// the normalization of its fields, and the dispatch over the selected
/// default mapping.
pub open spec fn start_post(
    s: AppChooserService,
    req: ChooserRequest,
    r: (ChooserState, ChooserAction),
) -> bool {
    match s.config.runner {
        Option::None => r.0@ is Finished && r.1@ == (ChooserActionView::Fail {
            error: ChooserError::ConfigurationMissing,
        }),
        Option::Some(runner) => {
            if req@.uri is None || req@.content_type is None {
                r.0@ is Finished && r.1@ == (ChooserActionView::Fail {
                    error: ChooserError::RequestInvalid,
                })
            } else {
                let uri = norm_uri(req@.uri->0);
                let ct = norm_content_type(req@.content_type->0);
                let picker = match runner {
                    RunnerType::Dmenu(c) => c@,
                };
                match mapping_lookup(s.config.defaults@, ct) {
                    Option::Some(DefaultMappingView::Command(cmd)) => {
                        &&& r.0@ is Launching
                        &&& r.0@->Launching_app_id == cmd.program
                        &&& token_matches(req@, r.0@->Launching_token)
                        &&& r.1@ == (ChooserActionView::Launch {
                            command: CommandView {
                                program: cmd.program,
                                arguments: cmd.arguments.push(uri),
                            },
                        })
                    },
                    Option::Some(DefaultMappingView::CommandChoice(cmds)) => {
                        &&& r.0@ is PickingCommand
                        &&& r.0@->PickingCommand_candidates == cmds
                        &&& r.0@->PickingCommand_uri == uri
                        &&& token_matches(req@, r.0@->PickingCommand_token)
                        &&& r.1@ == (ChooserActionView::RunPicker {
                            picker,
                            options: program_names(cmds),
                        })
                    },
                    Option::Some(DefaultMappingView::DesktopFile(id)) => {
                        &&& r.0@ is ResolvingMappingEntry
                        &&& r.0@->ResolvingMappingEntry_uri == uri
                        &&& token_matches(req@, r.0@->ResolvingMappingEntry_token)
                        &&& r.1@ == (ChooserActionView::ResolveEntries { ids: seq![id] })
                    },
                    Option::Some(DefaultMappingView::DesktopFileChoice(ids)) => {
                        &&& r.0@ is ResolvingMappingEntries
                        &&& r.0@->ResolvingMappingEntries_uri == uri
                        &&& token_matches(req@, r.0@->ResolvingMappingEntries_token)
                        &&& r.1@ == (ChooserActionView::ResolveEntries { ids })
                    },
                    Option::None => {
                        if req@.choices.len() == 0 {
                            r.0@ is Finished && r.1@ == (ChooserActionView::Fail {
                                error: ChooserError::RequestInvalid,
                            })
                        } else {
                            &&& r.0@ is ResolvingChoiceEntries
                            &&& r.0@->ResolvingChoiceEntries_uri == uri
                            &&& token_matches(req@, r.0@->ResolvingChoiceEntries_token)
                            &&& r.1@ == (ChooserActionView::ResolveEntries { ids: req@.choices })
                        }
                    },
                }
            }
        },
    }
}

/// Which event answers which state: the caller may only feed the
/// outcome of the action the engine asked for.
pub open spec fn state_accepts(st: ChooserStateView, ev: ChooserEventView) -> bool {
    match st {
        ChooserStateView::ResolvingMappingEntry { .. } => ev is EntriesResolved
            && ev->EntriesResolved_entries.len() == 1,
        ChooserStateView::ResolvingMappingEntries { .. } => ev is EntriesResolved,
        ChooserStateView::ResolvingChoiceEntries { .. } => ev is EntriesResolved,
        ChooserStateView::PickingCommand { .. } => ev is PickerFinished,
        ChooserStateView::PickingEntry { .. } => ev is PickerFinished,
        ChooserStateView::Launching { .. } => ev is LaunchFinished,
        ChooserStateView::Finished => false,
    }
}

/// What `step` returns for each state and answering event.
pub open spec fn step_post(
    s: AppChooserService,
    st: ChooserStateView,
    ev: ChooserEventView,
    r0: ChooserStateView,
    r1: ChooserActionView,
) -> bool {
    let picker = match s.config.runner {
        Option::Some(rt) => match rt {
            RunnerType::Dmenu(c) => c@,
        },
        Option::None => arbitrary(),
    };
    match st {
        ChooserStateView::ResolvingMappingEntry { uri, token } => {
            match entry_of(ev->EntriesResolved_entries[0]) {
                Option::None => r0 is Finished && r1 == (ChooserActionView::Fail {
                    error: ChooserError::ResolutionNotFound,
                }),
                Option::Some(e) => {
                    let cmd = entry_launch(e, s.terminal_path@, uri);
                    r0 == (ChooserStateView::Launching { app_id: cmd.program, token }) && r1 == (
                    ChooserActionView::Launch { command: cmd })
                },
            }
        },
        ChooserStateView::ResolvingMappingEntries { uri, token } => {
            let es = resolved_entries(ev->EntriesResolved_entries);
            r0 == (ChooserStateView::PickingEntry { entries: es, uri, token }) && r1 == (
            ChooserActionView::RunPicker { picker, options: display_names(es) })
        },
        ChooserStateView::ResolvingChoiceEntries { uri, token } => {
            let es = resolved_entries(ev->EntriesResolved_entries);
            if es.len() == 1 {
                let cmd = entry_launch(es[0], s.terminal_path@, uri);
                r0 == (ChooserStateView::Launching { app_id: cmd.program, token }) && r1 == (
                ChooserActionView::Launch { command: cmd })
            } else {
                r0 == (ChooserStateView::PickingEntry { entries: es, uri, token }) && r1 == (
                ChooserActionView::RunPicker { picker, options: display_names(es) })
            }
        },
        ChooserStateView::PickingCommand { candidates, uri, token } => {
            match ev->PickerFinished_output {
                Result::Err(_) => r0 is Finished && r1 == (ChooserActionView::Fail {
                    error: ChooserError::PickerFailure,
                }),
                Result::Ok(out) => {
                    let sel = trimmed(out);
                    let k = command_match(candidates, sel);
                    if k < candidates.len() {
                        let cmd = CommandView {
                            program: candidates[k].program,
                            arguments: candidates[k].arguments.push(uri),
                        };
                        r0 == (ChooserStateView::Launching { app_id: cmd.program, token }) && r1
                            == (ChooserActionView::Launch { command: cmd })
                    } else {
                        r0 is Finished && r1 == (ChooserActionView::Fail {
                            error: ChooserError::PickerFailure,
                        })
                    }
                },
            }
        },
        ChooserStateView::PickingEntry { entries, uri, token } => {
            match ev->PickerFinished_output {
                Result::Err(_) => r0 is Finished && r1 == (ChooserActionView::Fail {
                    error: ChooserError::PickerFailure,
                }),
                Result::Ok(out) => {
                    let sel = trimmed(out);
                    let k = entry_match(entries, sel);
                    if k < entries.len() {
                        let cmd = entry_launch(entries[k], s.terminal_path@, uri);
                        r0 == (ChooserStateView::Launching { app_id: cmd.program, token }) && r1
                            == (ChooserActionView::Launch { command: cmd })
                    } else {
                        r0 is Finished && r1 == (ChooserActionView::Fail {
                            error: ChooserError::PickerFailure,
                        })
                    }
                },
            }
        },
        ChooserStateView::Launching { app_id, token } => {
            match ev->LaunchFinished_outcome {
                Result::Ok(_) => r0 is Finished && r1 == (ChooserActionView::Respond {
                    response: ChooserResponseView { code: 0, app_id, activation_token: token },
                }),
                Result::Err(_) => r0 is Finished && r1 == (ChooserActionView::Fail {
                    error: ChooserError::ExecutionFailure,
                }),
            }
        },
        ChooserStateView::Finished => true,
    }
}

impl AppChooserService {
    /// Begins resolving one request: validates the preconditions,
    /// normalizes the request fields, settles the activation token,
    /// and dispatches over the default mapping the content type
    /// selects, falling through to the request's own candidates.
    pub fn start(&self, req: &ChooserRequest) -> (r: (ChooserState, ChooserAction))
        ensures
            start_post(*self, *req, r),
    {
        let runner = match &self.config.runner {
            Option::None => {
                return (
                    ChooserState::Finished,
                    ChooserAction::Fail { error: ChooserError::ConfigurationMissing },
                );
            },
            Option::Some(RunnerType::Dmenu(c)) => c,
        };
        let uri_raw = match &req.uri {
            Option::None => {
                return (
                    ChooserState::Finished,
                    ChooserAction::Fail { error: ChooserError::RequestInvalid },
                );
            },
            Option::Some(u) => u,
        };
        let ct_raw = match &req.content_type {
            Option::None => {
                return (
                    ChooserState::Finished,
                    ChooserAction::Fail { error: ChooserError::RequestInvalid },
                );
            },
            Option::Some(c) => c,
        };
        let uri = normalize_uri(uri_raw.as_str());
        let ct = normalize_content_type(ct_raw.as_str());
        let token = match &req.activation_token {
            Option::Some(t) => t.clone(),
            Option::None => fresh_token(),
        };
        let ghost dv = self.config.defaults@;
        let ghost ctv = ct@;
        proof {
            crate::wildcard::lemma_match_indices(table_keys(dv), ctv);
        }
        let hit = wildcard_get(&self.config.defaults, ct);
        match hit {
            Option::Some(pair) => {
                let ghost k = first_match(table_keys(dv), ctv);
                proof {
                    assert(pair.1@ == dv[k].1@) by {
                        if pair.1 == dv[k].1 {
                        } else {
                        }
                    }
                }
                match pair.1 {
                    DefaultMapping::Command(cmd) => {
                        let launched = cmd.with_input_file(uri);
                        let app_id = launched.command.clone();
                        (
                            ChooserState::Launching { app_id, token },
                            ChooserAction::Launch { command: launched },
                        )
                    },
                    DefaultMapping::CommandChoice(cmds) => {
                        let options = command_names(&cmds);
                        (
                            ChooserState::PickingCommand { candidates: cmds, uri, token },
                            ChooserAction::RunPicker { picker: runner.clone(), options },
                        )
                    },
                    DefaultMapping::DesktopFile(id) => {
                        let ghost idv = id@;
                        let mut ids: Vec<String> = Vec::new();
                        ids.push(id);
                        proof {
                            assert(ids.deep_view() =~= seq![idv]);
                        }
                        (
                            ChooserState::ResolvingMappingEntry { uri, token },
                            ChooserAction::ResolveEntries { ids },
                        )
                    },
                    DefaultMapping::DesktopFileChoice(ids) => (
                        ChooserState::ResolvingMappingEntries { uri, token },
                        ChooserAction::ResolveEntries { ids },
                    ),
                }
            },
            Option::None => {
                if req.choices.len() == 0 {
                    (
                        ChooserState::Finished,
                        ChooserAction::Fail { error: ChooserError::RequestInvalid },
                    )
                } else {
                    (
                        ChooserState::ResolvingChoiceEntries { uri, token },
                        ChooserAction::ResolveEntries { ids: clone_string_vec(&req.choices) },
                    )
                }
            },
        }
    }

    /// Advances one request by one outside outcome: the caller performs
    /// the action the previous call returned and feeds back its event.
    pub fn step(&self, state: ChooserState, event: ChooserEvent) -> (r: (
        ChooserState,
        ChooserAction,
    ))
        requires
            self.config.runner is Some,
            state_accepts(state@, event@),
        ensures
            step_post(*self, state@, event@, r.0@, r.1@),
    {
        let picker_cmd = match &self.config.runner {
            Option::Some(RunnerType::Dmenu(c)) => c,
            Option::None => {
                return unreached();
            },
        };
        match state {
            ChooserState::ResolvingMappingEntry { uri, token } => {
                match event {
                    ChooserEvent::EntriesResolved { entries } => {
                        let parsed = match &entries[0] {
                            Option::Some(raw) => parse_desktop_entry(raw),
                            Option::None => Option::None,
                        };
                        match parsed {
                            Option::None => (
                                ChooserState::Finished,
                                ChooserAction::Fail { error: ChooserError::ResolutionNotFound },
                            ),
                            Option::Some(entry) => {
                                let launched = launch_for_entry(
                                    &entry,
                                    self.terminal_path.as_str(),
                                    uri,
                                );
                                let app_id = launched.command.clone();
                                (
                                    ChooserState::Launching { app_id, token },
                                    ChooserAction::Launch { command: launched },
                                )
                            },
                        }
                    },
                    _ => unreached(),
                }
            },
            ChooserState::ResolvingMappingEntries { uri, token } => {
                match event {
                    ChooserEvent::EntriesResolved { entries } => {
                        let es = parse_entries(&entries);
                        let options = entry_names(&es);
                        (
                            ChooserState::PickingEntry { entries: es, uri, token },
                            ChooserAction::RunPicker { picker: picker_cmd.clone(), options },
                        )
                    },
                    _ => unreached(),
                }
            },
            ChooserState::ResolvingChoiceEntries { uri, token } => {
                match event {
                    ChooserEvent::EntriesResolved { entries } => {
                        let es = parse_entries(&entries);
                        if es.len() == 1 {
                            let launched = launch_for_entry(
                                &es[0],
                                self.terminal_path.as_str(),
                                uri,
                            );
                            let app_id = launched.command.clone();
                            (
                                ChooserState::Launching { app_id, token },
                                ChooserAction::Launch { command: launched },
                            )
                        } else {
                            let options = entry_names(&es);
                            (
                                ChooserState::PickingEntry { entries: es, uri, token },
                                ChooserAction::RunPicker { picker: picker_cmd.clone(), options },
                            )
                        }
                    },
                    _ => unreached(),
                }
            },
            ChooserState::PickingCommand { candidates, uri, token } => {
                match event {
                    ChooserEvent::PickerFinished { output } => {
                        match output {
                            Result::Err(_) => (
                                ChooserState::Finished,
                                ChooserAction::Fail { error: ChooserError::PickerFailure },
                            ),
                            Result::Ok(out) => {
                                let sel = trim_spaces(out.as_str());
                                match find_command(&candidates, sel.as_str()) {
                                    Option::None => (
                                        ChooserState::Finished,
                                        ChooserAction::Fail { error: ChooserError::PickerFailure },
                                    ),
                                    Option::Some(i) => {
                                        let launched = candidates[i].with_input_file(uri);
                                        let app_id = launched.command.clone();
                                        (
                                            ChooserState::Launching { app_id, token },
                                            ChooserAction::Launch { command: launched },
                                        )
                                    },
                                }
                            },
                        }
                    },
                    _ => unreached(),
                }
            },
            ChooserState::PickingEntry { entries, uri, token } => {
                match event {
                    ChooserEvent::PickerFinished { output } => {
                        match output {
                            Result::Err(_) => (
                                ChooserState::Finished,
                                ChooserAction::Fail { error: ChooserError::PickerFailure },
                            ),
                            Result::Ok(out) => {
                                let sel = trim_spaces(out.as_str());
                                match find_entry(&entries, sel.as_str()) {
                                    Option::None => (
                                        ChooserState::Finished,
                                        ChooserAction::Fail { error: ChooserError::PickerFailure },
                                    ),
                                    Option::Some(i) => {
                                        let launched = launch_for_entry(
                                            &entries[i],
                                            self.terminal_path.as_str(),
                                            uri,
                                        );
                                        let app_id = launched.command.clone();
                                        (
                                            ChooserState::Launching { app_id, token },
                                            ChooserAction::Launch { command: launched },
                                        )
                                    },
                                }
                            },
                        }
                    },
                    _ => unreached(),
                }
            },
            ChooserState::Launching { app_id, token } => {
                match event {
                    ChooserEvent::LaunchFinished { outcome } => {
                        match outcome {
                            Result::Ok(_) => (
                                ChooserState::Finished,
                                ChooserAction::Respond {
                                    response: ChooserResponse {
                                        code: 0,
                                        app_id,
                                        activation_token: token,
                                    },
                                },
                            ),
                            Result::Err(_) => (
                                ChooserState::Finished,
                                ChooserAction::Fail { error: ChooserError::ExecutionFailure },
                            ),
                        }
                    },
                    _ => unreached(),
                }
            },
            ChooserState::Finished => unreached(),
        }
    }
}

/// A request that selects no default mapping and carries no candidates
/// fails: whatever the configuration and the rest of the request, the
/// engine answers the failure immediately and never a vacuous success.
pub proof fn lemma_no_candidates_no_success(
    s: AppChooserService,
    req: ChooserRequest,
    r: (ChooserState, ChooserAction),
)
    requires
        start_post(s, req, r),
        s.config.runner is Some,
        req@.uri is Some,
        req@.content_type is Some,
        mapping_lookup(s.config.defaults@, norm_content_type(req@.content_type->0)) is None,
        req@.choices.len() == 0,
    ensures
        r.0@ is Finished,
        r.1@ == (ChooserActionView::Fail { error: ChooserError::RequestInvalid }),
        !(r.1@ is Respond),
{
}

} // verus!
