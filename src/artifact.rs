//! The two attach artifacts built from the collected endpoints: a debugger
//! command script with one inferior per rank, and a compound IDE launch
//! descriptor with one configuration per rank.
use vstd::prelude::*;
use crate::launch::LaunchSpec;
use crate::text::{decimal, decimal_text, texts};

verus! {

/// The endpoint carried by a rendezvous record: the record without its
/// terminating newline.
pub open spec fn endpoint_text(record: Seq<char>) -> Seq<char> {
    if record.len() > 0 && record.last() == '\n' {
        record.drop_last()
    } else {
        record
    }
}

/// Session settings, then the cross-inferior helper commands in a `python` block.
pub open spec fn script_header(helpers: Seq<char>) -> Seq<char> {
    "\nset pagination off\nset non-stop on\nset sysroot /\nset exec-file-mismatch off\n\npython\n"@
        + helpers + "\nend\n"@
}

/// Connects the first inferior to `endpoint`.
pub open spec fn primary_target(endpoint: Seq<char>) -> Seq<char> {
    "\ntarget extended-remote "@ + endpoint + "\n"@
}

/// Adds inferior number `n` and connects it to `endpoint`.
pub open spec fn inferior_block(n: nat, endpoint: Seq<char>) -> Seq<char> {
    "\nadd-inferior -no-connection\ninferior "@ + decimal(n) + "\ntarget extended-remote "@ + endpoint
        + "\n"@
}

/// One added inferior for each record after the first, inferior `i + 2` for
/// record `i + 1`.
pub open spec fn inferior_blocks(records: Seq<Seq<char>>) -> Seq<Seq<char>> {
    Seq::new(
        (records.len() - 1) as nat,
        |i: int| inferior_block((i + 2) as nat, endpoint_text(records[i + 1])),
    )
}

/// The debugger script for the endpoints of `records`, in list order.
pub open spec fn gdb_script(records: Seq<Seq<char>>, helpers: Seq<char>) -> Seq<char> {
    script_header(helpers) + primary_target(endpoint_text(records[0])) + inferior_blocks(
        records,
    ).flatten()
}

/// Where the debugger script is written, relative to the working directory.
pub const SCRIPT_PATH: &'static str = ".startup.gdb";

/// The directory of the IDE descriptor.
pub const DESCRIPTOR_DIR: &'static str = ".vscode";

/// Where the IDE descriptor is written, relative to the working directory.
pub const DESCRIPTOR_PATH: &'static str = ".vscode/launch.json";

/// The interactive debugger's arguments: run the script, then the extra
/// debugger arguments in order.
pub fn debugger_command_args(spec: &LaunchSpec) -> (r: Vec<String>)
    ensures
        texts(r@) == seq!["-x"@, SCRIPT_PATH@] + texts(spec.debugger_args@),
{
    let mut out: Vec<String> = Vec::new();
    out.push(String::from_str("-x"));
    out.push(String::from_str(SCRIPT_PATH));
    assert(texts(out@) =~= seq!["-x"@, SCRIPT_PATH@]);
    crate::text::push_all(&mut out, &spec.debugger_args);
    out
}

/// The endpoint carried by a rendezvous record.
pub fn endpoint_of_record(record: &str) -> (r: String)
    ensures
        r@ == endpoint_text(record@),
{
    let n = record.unicode_len();
    if n > 0 && record.get_char(n - 1) == '\n' {
        String::from_str(record.substring_char(0, n - 1))
    } else {
        String::from_str(record)
    }
}

/// The debugger script that attaches to every endpoint: the first record's
/// endpoint as the primary target, then inferiors `2..=N` for the others, in
/// list order. `helpers` is the body of the embedded `python` block.
pub fn startup_script(records: &Vec<String>, helpers: &str) -> (r: String)
    requires
        records@.len() >= 1,
    ensures
        r@ == gdb_script(texts(records@), helpers@),
{
    let ghost recs = texts(records@);
    let mut s = String::from_str("\nset pagination off\nset non-stop on\nset sysroot /\nset exec-file-mismatch off\n\npython\n");
    s.append(helpers);
    s.append("\nend\n");
    s.append("\ntarget extended-remote ");
    let first = endpoint_of_record(records[0].as_str());
    s.append(first.as_str());
    s.append("\n");
    assert(s@ =~= script_header(helpers@) + primary_target(endpoint_text(recs[0])));
    let ghost head = s@;
    let mut i: usize = 1;
    while i < records.len()
        invariant
            1 <= i <= records@.len(),
            recs == texts(records@),
            s@ == head + inferior_blocks(recs.take(i as int)).flatten(),
        decreases records@.len() - i,
    {
        let ghost before = s@;
        s.append("\nadd-inferior -no-connection\ninferior ");
        let number = decimal_text(i + 1);
        s.append(number.as_str());
        s.append("\ntarget extended-remote ");
        let endpoint = endpoint_of_record(records[i].as_str());
        s.append(endpoint.as_str());
        s.append("\n");
        proof {
            let block = inferior_block((i + 1) as nat, endpoint_text(recs[i as int]));
            assert(s@ =~= before + block);
            assert(inferior_blocks(recs.take(i + 1)) =~= inferior_blocks(recs.take(i as int)).push(
                block,
            ));
            inferior_blocks(recs.take(i as int)).lemma_flatten_push(block);
        }
        i = i + 1;
    }
    assert(recs.take(i as int) =~= recs);
    s
}

/// The script connects its first inferior to the first record's endpoint, and
/// adds exactly one inferior for each other record, numbered from 2 upwards in
/// list order and connected to that record's endpoint.
pub proof fn lemma_script_inferiors(records: Seq<Seq<char>>, helpers: Seq<char>)
    requires
        records.len() >= 1,
    ensures
        gdb_script(records, helpers) == script_header(helpers) + primary_target(
            endpoint_text(records[0]),
        ) + inferior_blocks(records).flatten(),
        inferior_blocks(records).len() == records.len() - 1,
        forall|i: int|
            0 <= i < records.len() - 1 ==> #[trigger] inferior_blocks(records)[i] == inferior_block(
                (i + 2) as nat,
                endpoint_text(records[i + 1]),
            ),
{
}

/// An environment variable of a launch configuration.
#[derive(Clone, Debug)]
pub struct VscodeEnvironment {
    pub name: String,
    pub value: String,
}

/// A debugger command run when a configuration starts.
#[derive(Clone, Debug)]
pub struct VscodeStartupCommand {
    pub description: String,
    pub text: String,
    pub ignore_failures: bool,
}

/// One IDE attach configuration: one rank's program at its endpoint.
#[derive(Clone, Debug)]
pub struct VscodeConfiguration {
    pub name: String,
    pub program: String,
    pub mi_debugger_server_address: String,
    pub kind: String,
    pub request: String,
    pub args: Vec<String>,
    pub stop_at_entry: bool,
    pub cwd: String,
    pub environment: Vec<VscodeEnvironment>,
    pub external_console: bool,
    pub mi_mode: String,
    pub mi_debugger_path: Option<String>,
    pub mi_debugger_args: Option<String>,
    pub setup_commands: Vec<VscodeStartupCommand>,
}

/// A group of configurations that the IDE starts together.
#[derive(Clone, Debug)]
pub struct VscodeCompound {
    pub name: String,
    pub configurations: Vec<String>,
}

/// The IDE launch descriptor.
#[derive(Clone, Debug)]
pub struct VscodeLaunchJson {
    pub version: String,
    pub compounds: Vec<VscodeCompound>,
    pub configurations: Vec<VscodeConfiguration>,
}

/// The name of the configuration for endpoint `i`.
pub open spec fn configuration_name(i: nat) -> Seq<char> {
    "debug rank "@ + decimal(i)
}

impl VscodeConfiguration {
    /// This is the attach configuration for `program` at the endpoint of
    /// `record`, named after list position `i`, debugged with `debugger`.
    pub open spec fn attaches(
        &self,
        i: nat,
        program: Seq<char>,
        record: Seq<char>,
        debugger: Seq<char>,
    ) -> bool {
        &&& self.name@ == configuration_name(i)
        &&& self.program@ == program
        &&& self.mi_debugger_server_address@ == endpoint_text(record)
        &&& self.kind@ == "cppdbg"@
        &&& self.request@ == "launch"@
        &&& self.args@.len() == 0
        &&& !self.stop_at_entry
        &&& self.cwd@ == "${workspaceRoot}"@
        &&& self.environment@.len() == 0
        &&& self.external_console
        &&& self.mi_mode@ == "gdb"@
        &&& self.mi_debugger_path matches Some(p) && p@ == debugger
        &&& self.mi_debugger_args is None
        &&& self.setup_commands@.len() == 1
        &&& self.setup_commands@[0].description@ == "pretty print outputs"@
        &&& self.setup_commands@[0].text@ == "-enable-pretty-printing"@
        &&& self.setup_commands@[0].ignore_failures
    }

    fn attach(i: usize, program: &String, record: &String, debugger: &String) -> (r: Self)
        ensures
            r.attaches(i as nat, program@, record@, debugger@),
    {
        let mut name = String::from_str("debug rank ");
        let number = decimal_text(i);
        name.append(number.as_str());
        let setup = VscodeStartupCommand {
            description: String::from_str("pretty print outputs"),
            text: String::from_str("-enable-pretty-printing"),
            ignore_failures: true,
        };
        let mut setup_commands = Vec::new();
        setup_commands.push(setup);
        VscodeConfiguration {
            name,
            program: program.clone(),
            mi_debugger_server_address: endpoint_of_record(record.as_str()),
            kind: String::from_str("cppdbg"),
            request: String::from_str("launch"),
            args: Vec::new(),
            stop_at_entry: false,
            cwd: String::from_str("${workspaceRoot}"),
            environment: Vec::new(),
            external_console: true,
            mi_mode: String::from_str("gdb"),
            mi_debugger_path: Some(debugger.clone()),
            mi_debugger_args: None,
            setup_commands,
        }
    }
}

impl VscodeLaunchJson {
    /// The descriptor for the endpoints of `hosts`: one configuration per
    /// record, in list order, binding the record at position `i` to the program
    /// of rank `i` in launch order, and one compound that starts them all.
    pub fn new(args: &LaunchSpec, hosts: &Vec<String>) -> (r: VscodeLaunchJson)
        requires
            args.wf(),
            hosts@.len() <= args.rank_count(),
        ensures
            r.version@ == "0.2.0"@,
            r.configurations@.len() == hosts@.len(),
            forall|i: int|
                0 <= i < hosts@.len() ==> (#[trigger] r.configurations@[i]).attaches(
                    i as nat,
                    args.rank_program(i as nat),
                    hosts@[i]@,
                    args.debugger@,
                ),
            r.compounds@.len() == 1,
            r.compounds@[0].name@ == "debug all ranks"@,
            texts(r.compounds@[0].configurations@) == Seq::new(
                hosts@.len(),
                |i: int| configuration_name(i as nat),
            ),
    {
        let programs = args.rank_programs();
        let mut names: Vec<String> = Vec::new();
        let mut configurations: Vec<VscodeConfiguration> = Vec::new();
        let mut idx: usize = 0;
        while idx < hosts.len()
            invariant
                idx <= hosts@.len() <= programs@.len(),
                programs@.len() == args.rank_count(),
                forall|i: int|
                    0 <= i < programs@.len() ==> (#[trigger] programs@[i])@ == args.rank_program(
                        i as nat,
                    ),
                configurations@.len() == idx,
                forall|i: int|
                    0 <= i < idx ==> (#[trigger] configurations@[i]).attaches(
                        i as nat,
                        args.rank_program(i as nat),
                        hosts@[i]@,
                        args.debugger@,
                    ),
                texts(names@) == Seq::new(idx as nat, |i: int| configuration_name(i as nat)),
            decreases hosts@.len() - idx,
        {
            let configuration = VscodeConfiguration::attach(
                idx,
                &programs[idx],
                &hosts[idx],
                &args.debugger,
            );
            let name = configuration.name.clone();
            let ghost before = names@;
            names.push(name);
            assert(texts(names@) =~= texts(before).push(configuration_name(idx as nat)));
            assert(Seq::new((idx + 1) as nat, |i: int| configuration_name(i as nat)) =~= Seq::new(
                idx as nat,
                |i: int| configuration_name(i as nat),
            ).push(configuration_name(idx as nat)));
            configurations.push(configuration);
            idx = idx + 1;
        }
        let compound = VscodeCompound { name: String::from_str("debug all ranks"), configurations: names };
        let mut compounds = Vec::new();
        compounds.push(compound);
        VscodeLaunchJson { version: String::from_str("0.2.0"), compounds, configurations }
    }
}

} // verus!
