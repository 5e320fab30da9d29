//! The command line of the launcher: flags, then the program after `--`, with
//! `:` opening another process group. Read token by token by a small state
//! machine.
use vstd::prelude::*;
use crate::launch::{
    Frontend, LaunchSpec, ProcessGroup, MAX_PORT, lemma_take_next, lemma_total_of_prefix, total_ranks,
};
use crate::text::{is_numeral, numeral_value, parse_usize, same_text, starts_with_text, texts};

verus! {

/// What the next token is read as.
#[derive(Clone, Copy, Debug, PartialEq, Eq, Structural)]
pub enum CliState {
    /// Launcher flags and this tool's own flags.
    MpiFlags,
    /// The program's command line, after `--`.
    CommandFlags,
    /// The value of `-n`.
    ProcsFlag,
    /// The value of the base-port flag.
    PortFlag,
    /// The value of the helper-path flag.
    HelperFlag,
    /// The value of the global launcher-flag flag.
    GlobalFlag,
    /// The value of the debugger-argument flag.
    DbgFlag,
    /// The value of the debug-stub path flag.
    GdbServerPath,
    /// The value of the debugger path flag.
    GdbPath,
    /// The value of the front-end flag.
    Frontend,
}

/// Why a command line was refused.
#[derive(Clone, Copy, Debug, PartialEq, Eq, Structural)]
pub enum ArgError {
    /// A process count is not an unsigned number.
    InvalidCount,
    /// The base port is not an unsigned number.
    InvalidPort,
    /// The front end is neither `gdb` nor `vscode`.
    InvalidFrontend,
    /// A group runs no process.
    NoReplicas,
    /// A group names no program.
    MissingProgram,
    /// A rank's port would lie above the highest TCP port.
    PortOutOfRange,
}

/// What a command line asks for.
#[derive(Clone, Debug)]
pub enum ParseOutcome {
    /// Print the usage text.
    Help,
    /// Launch as described.
    Launch(LaunchSpec),
}

/// A process group as read so far.
pub struct GroupView {
    pub replicas: nat,
    pub launcher_args: Seq<Seq<char>>,
    pub program_args: Seq<Seq<char>>,
}

impl View for ProcessGroup {
    type V = GroupView;

    open spec fn view(&self) -> GroupView {
        GroupView {
            replicas: self.replicas as nat,
            launcher_args: texts(self.launcher_args@),
            program_args: texts(self.program_args@),
        }
    }
}

/// The views of `gs`.
pub open spec fn group_views(gs: Seq<ProcessGroup>) -> Seq<GroupView> {
    gs.map_values(|g: ProcessGroup| g@)
}

/// Everything read so far.
pub struct ParserView {
    pub mode: CliState,
    pub groups: Seq<GroupView>,
    pub global_launcher_args: Seq<Seq<char>>,
    pub debugger_args: Seq<Seq<char>>,
    pub base_port: nat,
    pub helper: Seq<char>,
    pub stub: Seq<char>,
    pub debugger: Seq<char>,
    pub frontend: Frontend,
    pub dry_run: bool,
    pub verbose: bool,
}

/// Where reading stands after a token.
pub enum Progress {
    /// Go on with the next token.
    Reading(ParserView),
    /// Usage was asked for; the rest is not read.
    Help,
    /// The command line is refused; the rest is not read.
    Refused(ArgError),
}

/// Before the first token: one group of one process, base port 8000, and the
/// helper, stub and debugger found by name.
pub open spec fn initial_view() -> ParserView {
    ParserView {
        mode: CliState::MpiFlags,
        groups: seq![GroupView { replicas: 1, launcher_args: seq![], program_args: seq![] }],
        global_launcher_args: seq![],
        debugger_args: seq![],
        base_port: 8000,
        helper: "mpigdb_helper"@,
        stub: "gdbserver"@,
        debugger: "gdb"@,
        frontend: Frontend::Gdb,
        dry_run: false,
        verbose: false,
    }
}

impl ParserView {
    /// The same, reading the next token as `mode`.
    pub open spec fn with_mode(self, mode: CliState) -> ParserView {
        ParserView { mode, ..self }
    }

    /// The last group replaced by `g`.
    pub open spec fn with_last_group(self, g: GroupView) -> ParserView {
        ParserView { groups: self.groups.update(self.groups.len() - 1, g), ..self }
    }

    /// `a` added to the last group's launcher flags.
    pub open spec fn push_launcher_arg(self, a: Seq<char>) -> ParserView {
        let last = self.groups.last();
        self.with_last_group(
            GroupView {
                replicas: last.replicas,
                launcher_args: last.launcher_args.push(a),
                program_args: last.program_args,
            },
        )
    }

    /// `a` added to the last group's program command line.
    pub open spec fn push_program_arg(self, a: Seq<char>) -> ParserView {
        let last = self.groups.last();
        self.with_last_group(
            GroupView {
                replicas: last.replicas,
                launcher_args: last.launcher_args,
                program_args: last.program_args.push(a),
            },
        )
    }

    /// The last group's process count set to `n`.
    pub open spec fn set_replicas(self, n: nat) -> ParserView {
        let last = self.groups.last();
        self.with_last_group(
            GroupView {
                replicas: n,
                launcher_args: last.launcher_args,
                program_args: last.program_args,
            },
        )
    }
}

/// Whether `a` reads as a `usize`.
pub open spec fn reads_as_usize(a: Seq<char>) -> bool {
    is_numeral(a) && numeral_value(a) <= usize::MAX
}

/// Reading flags: this tool's own flags change the settings, `--` starts the
/// program's command line, and anything else is a launcher flag of the group.
pub open spec fn flag_step(v: ParserView, a: Seq<char>) -> Progress {
    if a == "-h"@ || a == "--help"@ {
        Progress::Help
    } else if a == "-n"@ || a == "-np"@ {
        Progress::Reading(v.with_mode(CliState::ProcsFlag))
    } else if a == "--mpigdb_verbose"@ {
        Progress::Reading(ParserView { verbose: true, ..v })
    } else if a == "--interpreter=mi"@ || (a.len() >= 6 && a.subrange(0, 6) == "--tty="@) {
        Progress::Reading(ParserView { debugger_args: v.debugger_args.push(a), ..v })
    } else if a == "--mpigdb_frontend"@ {
        Progress::Reading(v.with_mode(CliState::Frontend))
    } else if a == "--mpigdb_dbg_arg"@ {
        Progress::Reading(v.with_mode(CliState::DbgFlag))
    } else if a == "--mpigdb_helper"@ {
        Progress::Reading(v.with_mode(CliState::HelperFlag))
    } else if a == "--mpigdb_gdbserver"@ {
        Progress::Reading(v.with_mode(CliState::GdbServerPath))
    } else if a == "--mpigdb_gdb"@ {
        Progress::Reading(v.with_mode(CliState::GdbPath))
    } else if a == "--mpigdb_port"@ {
        Progress::Reading(v.with_mode(CliState::PortFlag))
    } else if a == "--mpigdb_mpi_flag"@ {
        Progress::Reading(v.with_mode(CliState::GlobalFlag))
    } else if a == "--mpigdb_dryrun"@ {
        Progress::Reading(ParserView { dry_run: true, ..v })
    } else if a == "--"@ {
        Progress::Reading(v.with_mode(CliState::CommandFlags))
    } else {
        Progress::Reading(v.push_launcher_arg(a))
    }
}

/// Reads one token.
pub open spec fn step_view(v: ParserView, a: Seq<char>) -> Progress {
    let flags = CliState::MpiFlags;
    match v.mode {
        CliState::MpiFlags => flag_step(v, a),
        CliState::CommandFlags => if a == ":"@ {
            Progress::Reading(
                ParserView {
                    mode: flags,
                    groups: v.groups.push(
                        GroupView { replicas: 1, launcher_args: seq![], program_args: seq![] },
                    ),
                    ..v
                },
            )
        } else {
            Progress::Reading(v.push_program_arg(a))
        },
        CliState::ProcsFlag => if reads_as_usize(a) {
            Progress::Reading(v.set_replicas(numeral_value(a)).with_mode(flags))
        } else {
            Progress::Refused(ArgError::InvalidCount)
        },
        CliState::Frontend => if a == "gdb"@ {
            Progress::Reading(ParserView { mode: flags, frontend: Frontend::Gdb, ..v })
        } else if a == "vscode"@ {
            Progress::Reading(ParserView { mode: flags, frontend: Frontend::VsCode, ..v })
        } else {
            Progress::Refused(ArgError::InvalidFrontend)
        },
        CliState::HelperFlag => Progress::Reading(ParserView { mode: flags, helper: a, ..v }),
        CliState::PortFlag => if reads_as_usize(a) {
            Progress::Reading(ParserView { mode: flags, base_port: numeral_value(a), ..v })
        } else {
            Progress::Refused(ArgError::InvalidPort)
        },
        CliState::GlobalFlag => Progress::Reading(
            ParserView {
                mode: flags,
                global_launcher_args: v.global_launcher_args.push(a),
                ..v
            },
        ),
        CliState::DbgFlag => Progress::Reading(
            ParserView { mode: flags, debugger_args: v.debugger_args.push(a), ..v },
        ),
        CliState::GdbServerPath => Progress::Reading(ParserView { mode: flags, stub: a, ..v }),
        CliState::GdbPath => Progress::Reading(ParserView { mode: flags, debugger: a, ..v }),
    }
}

/// Reads `tokens` in order from `v`, stopping at help or at a refusal.
pub open spec fn read_all(v: ParserView, tokens: Seq<Seq<char>>) -> Progress
    decreases tokens.len(),
{
    if tokens.len() == 0 {
        Progress::Reading(v)
    } else {
        match step_view(v, tokens[0]) {
            Progress::Reading(next) => read_all(next, tokens.drop_first()),
            other => other,
        }
    }
}

/// The number of processes of all groups of `gs`.
pub open spec fn view_ranks(gs: Seq<GroupView>) -> nat
    decreases gs.len(),
{
    if gs.len() == 0 {
        0
    } else {
        view_ranks(gs.drop_last()) + gs.last().replicas
    }
}

/// Why the groups read cannot be launched, if they cannot: a group without
/// processes, else a group without a program, else a port above the highest.
pub open spec fn launch_refusal(v: ParserView) -> Option<ArgError> {
    if exists|g: int| 0 <= g < v.groups.len() && (#[trigger] v.groups[g]).replicas == 0 {
        Some(ArgError::NoReplicas)
    } else if exists|g: int|
        0 <= g < v.groups.len() && (#[trigger] v.groups[g]).program_args.len() == 0 {
        Some(ArgError::MissingProgram)
    } else if v.base_port + view_ranks(v.groups) > MAX_PORT {
        Some(ArgError::PortOutOfRange)
    } else {
        None
    }
}

impl LaunchSpec {
    /// This launch holds what `v` read.
    pub open spec fn holds(&self, v: ParserView) -> bool {
        &&& group_views(self.groups@) == v.groups
        &&& texts(self.global_launcher_args@) == v.global_launcher_args
        &&& texts(self.debugger_args@) == v.debugger_args
        &&& self.base_port == v.base_port
        &&& self.helper@ == v.helper
        &&& self.stub@ == v.stub
        &&& self.debugger@ == v.debugger
        &&& self.frontend == v.frontend
        &&& self.dry_run == v.dry_run
        &&& self.verbose == v.verbose
    }
}

/// The outcome of reading `tokens` from the start.
pub open spec fn parse_result(tokens: Seq<Seq<char>>) -> Result<Option<ParserView>, ArgError> {
    match read_all(initial_view(), tokens) {
        Progress::Help => Ok(None),
        Progress::Refused(e) => Err(e),
        Progress::Reading(v) => match launch_refusal(v) {
            Some(e) => Err(e),
            None => Ok(Some(v)),
        },
    }
}

/// The two views count the same processes.
proof fn lemma_view_ranks(gs: Seq<ProcessGroup>)
    ensures
        view_ranks(group_views(gs)) == total_ranks(gs),
    decreases gs.len(),
{
    if gs.len() > 0 {
        assert(group_views(gs).drop_last() =~= group_views(gs.drop_last()));
        lemma_view_ranks(gs.drop_last());
    }
}

/// What reading one token gave.
#[derive(Clone, Copy, Debug, PartialEq, Eq, Structural)]
pub enum StepOutcome {
    /// Go on with the next token.
    Continue,
    /// Usage was asked for.
    Help,
    /// The command line is refused.
    Refused(ArgError),
}

/// The command-line reader.
pub struct CliParser {
    pub mode: CliState,
    pub groups: Vec<ProcessGroup>,
    pub global_launcher_args: Vec<String>,
    pub debugger_args: Vec<String>,
    pub base_port: usize,
    pub helper: String,
    pub stub: String,
    pub debugger: String,
    pub frontend: Frontend,
    pub dry_run: bool,
    pub verbose: bool,
}

impl View for CliParser {
    type V = ParserView;

    open spec fn view(&self) -> ParserView {
        ParserView {
            mode: self.mode,
            groups: group_views(self.groups@),
            global_launcher_args: texts(self.global_launcher_args@),
            debugger_args: texts(self.debugger_args@),
            base_port: self.base_port as nat,
            helper: self.helper@,
            stub: self.stub@,
            debugger: self.debugger@,
            frontend: self.frontend,
            dry_run: self.dry_run,
            verbose: self.verbose,
        }
    }
}

/// A group of one process, with no flags and no program yet.
fn fresh_group() -> (r: ProcessGroup)
    ensures
        r@ == (GroupView { replicas: 1, launcher_args: seq![], program_args: seq![] }),
{
    let r = ProcessGroup { replicas: 1, launcher_args: Vec::new(), program_args: Vec::new() };
    assert(r@.launcher_args =~= seq![]);
    assert(r@.program_args =~= seq![]);
    r
}

fn push_arg(v: &mut Vec<String>, a: String)
    ensures
        texts(final(v)@) == texts(old(v)@).push(a@),
{
    let ghost before = v@;
    v.push(a);
    assert(texts(v@) =~= texts(before).push(a@));
}

impl CliParser {
    /// A reader before the first token.
    pub fn new() -> (r: Self)
        ensures
            r@ == initial_view(),
            r.groups@.len() == 1,
    {
        let mut groups: Vec<ProcessGroup> = Vec::new();
        groups.push(fresh_group());
        let r = CliParser {
            mode: CliState::MpiFlags,
            groups,
            global_launcher_args: Vec::new(),
            debugger_args: Vec::new(),
            base_port: 8000,
            helper: String::from_str("mpigdb_helper"),
            stub: String::from_str("gdbserver"),
            debugger: String::from_str("gdb"),
            frontend: Frontend::Gdb,
            dry_run: false,
            verbose: false,
        };
        assert(r@.groups =~= initial_view().groups);
        assert(r@.global_launcher_args =~= seq![]);
        assert(r@.debugger_args =~= seq![]);
        r
    }

    /// Adds a launcher flag or a program argument to the last group, or sets
    /// its process count.
    fn update_last(&mut self, launcher_arg: Option<String>, program_arg: Option<String>, replicas: Option<usize>)
        requires
            old(self).groups@.len() >= 1,
        ensures
            final(self).groups@.len() == old(self).groups@.len(),
            final(self)@ == ({
                let v = old(self)@;
                let v1 = match launcher_arg { Some(a) => v.push_launcher_arg(a@), None => v };
                let v2 = match program_arg { Some(a) => v1.push_program_arg(a@), None => v1 };
                match replicas { Some(n) => v2.set_replicas(n as nat), None => v2 }
            }),
    {
        let ghost before = self.groups@;
        let ghost v = self@;
        let ghost la = launcher_arg;
        let ghost pa = program_arg;
        let last = self.groups.pop();
        match last {
            Some(g) => {
                let mut g = g;
                match launcher_arg {
                    Some(a) => push_arg(&mut g.launcher_args, a),
                    None => {},
                }
                match program_arg {
                    Some(a) => push_arg(&mut g.program_args, a),
                    None => {},
                }
                match replicas {
                    Some(n) => { g.replicas = n; },
                    None => {},
                }
                self.groups.push(g);
                proof {
                    assert(before.drop_last() == self.groups@.drop_last());
                    let v1 = match la { Some(a) => v.push_launcher_arg(a@), None => v };
                    let v2 = match pa { Some(a) => v1.push_program_arg(a@), None => v1 };
                    let v3 = match replicas { Some(n) => v2.set_replicas(n as nat), None => v2 };
                    assert(group_views(self.groups@) =~= v3.groups);
                }
            },
            None => {},
        }
    }

    /// Reads one token.
    pub fn step(&mut self, arg: String) -> (r: StepOutcome)
        requires
            old(self).groups@.len() >= 1,
        ensures
            final(self).groups@.len() >= 1,
            match step_view(old(self)@, arg@) {
                Progress::Reading(v) => r == StepOutcome::Continue && final(self)@ == v,
                Progress::Help => r == StepOutcome::Help,
                Progress::Refused(e) => r == StepOutcome::Refused(e),
            },
    {
        let a = arg.as_str();
        match self.mode {
            CliState::MpiFlags => {
                proof {
                    reveal_strlit("--tty=");
                }
                if same_text(a, "-h") || same_text(a, "--help") {
                    StepOutcome::Help
                } else if same_text(a, "-n") || same_text(a, "-np") {
                    self.mode = CliState::ProcsFlag;
                    StepOutcome::Continue
                } else if same_text(a, "--mpigdb_verbose") {
                    self.verbose = true;
                    StepOutcome::Continue
                } else if same_text(a, "--interpreter=mi") || starts_with_text(a, "--tty=") {
                    push_arg(&mut self.debugger_args, arg);
                    StepOutcome::Continue
                } else if same_text(a, "--mpigdb_frontend") {
                    self.mode = CliState::Frontend;
                    StepOutcome::Continue
                } else if same_text(a, "--mpigdb_dbg_arg") {
                    self.mode = CliState::DbgFlag;
                    StepOutcome::Continue
                } else if same_text(a, "--mpigdb_helper") {
                    self.mode = CliState::HelperFlag;
                    StepOutcome::Continue
                } else if same_text(a, "--mpigdb_gdbserver") {
                    self.mode = CliState::GdbServerPath;
                    StepOutcome::Continue
                } else if same_text(a, "--mpigdb_gdb") {
                    self.mode = CliState::GdbPath;
                    StepOutcome::Continue
                } else if same_text(a, "--mpigdb_port") {
                    self.mode = CliState::PortFlag;
                    StepOutcome::Continue
                } else if same_text(a, "--mpigdb_mpi_flag") {
                    self.mode = CliState::GlobalFlag;
                    StepOutcome::Continue
                } else if same_text(a, "--mpigdb_dryrun") {
                    self.dry_run = true;
                    StepOutcome::Continue
                } else if same_text(a, "--") {
                    self.mode = CliState::CommandFlags;
                    StepOutcome::Continue
                } else {
                    self.update_last(Some(arg), None, None);
                    StepOutcome::Continue
                }
            },
            CliState::CommandFlags => {
                if same_text(a, ":") {
                    let ghost before = self.groups@;
                    self.groups.push(fresh_group());
                    assert(group_views(self.groups@) =~= group_views(before).push(
                        GroupView { replicas: 1, launcher_args: seq![], program_args: seq![] },
                    ));
                    self.mode = CliState::MpiFlags;
                } else {
                    self.update_last(None, Some(arg), None);
                }
                StepOutcome::Continue
            },
            CliState::ProcsFlag => match parse_usize(a) {
                Some(n) => {
                    self.update_last(None, None, Some(n));
                    self.mode = CliState::MpiFlags;
                    StepOutcome::Continue
                },
                None => StepOutcome::Refused(ArgError::InvalidCount),
            },
            CliState::Frontend => {
                if same_text(a, "gdb") {
                    self.frontend = Frontend::Gdb;
                    self.mode = CliState::MpiFlags;
                    StepOutcome::Continue
                } else if same_text(a, "vscode") {
                    self.frontend = Frontend::VsCode;
                    self.mode = CliState::MpiFlags;
                    StepOutcome::Continue
                } else {
                    StepOutcome::Refused(ArgError::InvalidFrontend)
                }
            },
            CliState::HelperFlag => {
                self.helper = arg;
                self.mode = CliState::MpiFlags;
                StepOutcome::Continue
            },
            CliState::PortFlag => match parse_usize(a) {
                Some(n) => {
                    self.base_port = n;
                    self.mode = CliState::MpiFlags;
                    StepOutcome::Continue
                },
                None => StepOutcome::Refused(ArgError::InvalidPort),
            },
            CliState::GlobalFlag => {
                push_arg(&mut self.global_launcher_args, arg);
                self.mode = CliState::MpiFlags;
                StepOutcome::Continue
            },
            CliState::DbgFlag => {
                push_arg(&mut self.debugger_args, arg);
                self.mode = CliState::MpiFlags;
                StepOutcome::Continue
            },
            CliState::GdbServerPath => {
                self.stub = arg;
                self.mode = CliState::MpiFlags;
                StepOutcome::Continue
            },
            CliState::GdbPath => {
                self.debugger = arg;
                self.mode = CliState::MpiFlags;
                StepOutcome::Continue
            },
        }
    }
}

impl CliParser {
    /// The launch read, or why it cannot be launched: a group without
    /// processes, else a group without a program, else a rank's port above the
    /// highest TCP port.
    pub fn finish(self) -> (r: Result<LaunchSpec, ArgError>)
        ensures
            match launch_refusal(self@) {
                Some(e) => r matches Err(f) && f == e,
                None => r matches Ok(s) && s.holds(self@) && s.wf(),
            },
    {
        let ghost v = self@;
        let mut g: usize = 0;
        while g < self.groups.len()
            invariant
                g <= self.groups@.len(),
                v == self@,
                forall|k: int| 0 <= k < g ==> (#[trigger] self.groups@[k]).replicas > 0,
            decreases self.groups@.len() - g,
        {
            if self.groups[g].replicas == 0 {
                assert(v.groups[g as int].replicas == 0);
                return Err(ArgError::NoReplicas);
            }
            g = g + 1;
        }
        assert(forall|k: int| 0 <= k < v.groups.len() ==> #[trigger] v.groups[k] == self.groups@[k]@);
        g = 0;
        while g < self.groups.len()
            invariant
                g <= self.groups@.len(),
                v == self@,
                forall|k: int| 0 <= k < self.groups@.len() ==> (#[trigger] self.groups@[k]).replicas > 0,
                forall|k: int| 0 <= k < v.groups.len() ==> #[trigger] v.groups[k] == self.groups@[k]@,
                forall|k: int| 0 <= k < g ==> (#[trigger] self.groups@[k]).program_args@.len() > 0,
            decreases self.groups@.len() - g,
        {
            if self.groups[g].program_args.len() == 0 {
                assert(v.groups[g as int].program_args.len() == 0);
                return Err(ArgError::MissingProgram);
            }
            g = g + 1;
        }
        proof {
            lemma_view_ranks(self.groups@);
        }
        let mut sum: usize = 0;
        g = 0;
        while g < self.groups.len()
            invariant
                g <= self.groups@.len(),
                v == self@,
                view_ranks(v.groups) == total_ranks(self.groups@),
                forall|k: int| 0 <= k < self.groups@.len() ==> (#[trigger] self.groups@[k]).replicas > 0,
                forall|k: int| 0 <= k < v.groups.len() ==> #[trigger] v.groups[k] == self.groups@[k]@,
                forall|k: int|
                    0 <= k < self.groups@.len() ==> (#[trigger] self.groups@[k]).program_args@.len() > 0,
                sum == total_ranks(self.groups@.take(g as int)),
                sum <= MAX_PORT,
            decreases self.groups@.len() - g,
        {
            proof {
                lemma_take_next(self.groups@, g as int);
                lemma_total_of_prefix(self.groups@, g + 1);
            }
            if self.groups[g].replicas > MAX_PORT - sum {
                return Err(ArgError::PortOutOfRange);
            }
            sum = sum + self.groups[g].replicas;
            g = g + 1;
        }
        assert(self.groups@.take(g as int) =~= self.groups@);
        if self.base_port > MAX_PORT - sum {
            return Err(ArgError::PortOutOfRange);
        }
        Ok(
            LaunchSpec {
                groups: self.groups,
                global_launcher_args: self.global_launcher_args,
                debugger_args: self.debugger_args,
                base_port: self.base_port,
                helper: self.helper,
                stub: self.stub,
                debugger: self.debugger,
                frontend: self.frontend,
                dry_run: self.dry_run,
                verbose: self.verbose,
            },
        )
    }
}

/// Reads a command line, given without the program name: usage, the launch it
/// describes, or why it is refused.
pub fn parse_args(tokens: &Vec<String>) -> (r: Result<ParseOutcome, ArgError>)
    ensures
        match parse_result(texts(tokens@)) {
            Ok(None) => r matches Ok(ParseOutcome::Help),
            Ok(Some(v)) => r matches Ok(ParseOutcome::Launch(s)) && s.holds(v) && s.wf(),
            Err(e) => r matches Err(f) && f == e,
        },
{
    let ghost all = texts(tokens@);
    let mut parser = CliParser::new();
    let mut i: usize = 0;
    assert(all.skip(0) =~= all);
    while i < tokens.len()
        invariant
            i <= tokens@.len(),
            all == texts(tokens@),
            parser.groups@.len() >= 1,
            read_all(initial_view(), all) == read_all(parser@, all.skip(i as int)),
        decreases tokens@.len() - i,
    {
        let ghost before = parser@;
        let ghost rest = all.skip(i as int);
        assert(rest[0] == tokens@[i as int]@);
        assert(rest.drop_first() =~= all.skip(i + 1));
        let outcome = parser.step(tokens[i].clone());
        match outcome {
            StepOutcome::Continue => {},
            StepOutcome::Help => {
                return Ok(ParseOutcome::Help);
            },
            StepOutcome::Refused(e) => {
                return Err(e);
            },
        }
        i = i + 1;
    }
    assert(all.skip(i as int) =~= seq![]);
    match parser.finish() {
        Ok(spec) => Ok(ParseOutcome::Launch(spec)),
        Err(e) => Err(e),
    }
}

} // verus!
