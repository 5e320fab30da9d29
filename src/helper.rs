//! The rank side of the rendezvous: the helper started for each rank reports
//! `host:port` to the control address, then becomes the debug stub bound to
//! that port.
use vstd::prelude::*;
use crate::launch::host_port;
use crate::text::texts;

verus! {

/// Relies on `hostname::get`: the name of this machine, when the system gives
/// one that is valid Unicode. What it is depends on the machine.
#[verifier::external_body]
fn machine_hostname() -> (r: Option<String>)
{
    hostname::get().ok().and_then(|h| h.into_string().ok())
}

/// The helper's command line, after the program name.
#[derive(Clone, Debug)]
pub struct HelperArgs {
    /// Where the control listener waits, `host:port`.
    pub control_address: String,
    /// The debug port assigned to this rank, as given.
    pub port: String,
    /// Whether to print diagnostics.
    pub verbose: bool,
    /// Path of the debug stub.
    pub stub: String,
    /// The program's command line.
    pub program_args: Vec<String>,
}

impl HelperArgs {
    /// Reads `program control-address port verbosity stub program-args...`;
    /// `None` when a field before the program's arguments is missing. The
    /// verbosity is on exactly when it reads `1`.
    pub fn from_args(argv: &Vec<String>) -> (r: Option<HelperArgs>)
        ensures
            r is Some <==> argv@.len() >= 5,
            r matches Some(h) ==> {
                &&& h.control_address@ == argv@[1]@
                &&& h.port@ == argv@[2]@
                &&& h.verbose == (argv@[3]@ == "1"@)
                &&& h.stub@ == argv@[4]@
                &&& texts(h.program_args@) == texts(argv@).skip(5)
            },
    {
        if argv.len() < 5 {
            return None;
        }
        let one = String::from_str("1");
        let mut program_args: Vec<String> = Vec::new();
        let mut i: usize = 5;
        while i < argv.len()
            invariant
                5 <= i <= argv@.len(),
                texts(program_args@) == texts(argv@).subrange(5, i as int),
            decreases argv@.len() - i,
        {
            let ghost before = program_args@;
            program_args.push(argv[i].clone());
            assert(texts(program_args@) =~= texts(before).push(argv@[i as int]@));
            assert(texts(argv@).subrange(5, i + 1) =~= texts(argv@).subrange(5, i as int).push(
                argv@[i as int]@,
            ));
            i = i + 1;
        }
        assert(texts(argv@).subrange(5, argv@.len() as int) =~= texts(argv@).skip(5));
        Some(
            HelperArgs {
                control_address: argv[1].clone(),
                port: argv[2].clone(),
                verbose: argv[3] == one,
                stub: argv[4].clone(),
                program_args,
            },
        )
    }
}

/// `host:port` with the port as given.
pub open spec fn endpoint_of(host: Seq<char>, port: Seq<char>) -> Seq<char> {
    host + ":"@ + port
}

/// The one line a helper sends over the control connection.
pub open spec fn report_line(host: Seq<char>, port: Seq<char>) -> Seq<char> {
    endpoint_of(host, port) + "\n"@
}

/// `host:port` for the given host and port text.
pub fn endpoint_text_of(host: &str, port: &str) -> (r: String)
    ensures
        r@ == endpoint_of(host@, port@),
{
    let mut s = String::from_str(host);
    s.append(":");
    s.append(port);
    s
}

/// The record sent to the control listener: `host:port` and a newline.
pub fn report_record(host: &str, port: &str) -> (r: String)
    ensures
        r@ == report_line(host@, port@),
{
    let mut s = endpoint_text_of(host, port);
    s.append("\n");
    s
}

/// The arguments of the debug stub: serve one session on `host:port`, running
/// the program's command line unchanged.
pub fn stub_args(host: &str, port: &str, program_args: &Vec<String>) -> (r: Vec<String>)
    ensures
        texts(r@) == seq!["--once"@, endpoint_of(host@, port@)] + texts(program_args@),
{
    let mut out: Vec<String> = Vec::new();
    out.push(String::from_str("--once"));
    out.push(endpoint_text_of(host, port));
    assert(texts(out@) =~= seq!["--once"@, endpoint_of(host@, port@)]);
    crate::text::push_all(&mut out, program_args);
    out
}

/// What a helper does once it has read its command line: the record to send
/// to the control listener, and the debug stub's arguments.
#[derive(Clone, Debug)]
pub struct RankPlan {
    pub record: String,
    pub stub_args: Vec<String>,
}

impl HelperArgs {
    /// The plan for this machine, or `None` when the machine's name cannot be
    /// had. The stub is bound to exactly the endpoint that the record reports.
    pub fn plan(&self) -> (r: Option<RankPlan>)
        ensures
            r matches Some(p) ==> exists|host: Seq<char>|
                {
                    &&& #[trigger] p.record@ == report_line(host, self.port@)
                    &&& texts(p.stub_args@) == seq!["--once"@, endpoint_of(host, self.port@)] + texts(
                        self.program_args@,
                    )
                },
    {
        match machine_hostname() {
            Some(host) => {
                let record = report_record(host.as_str(), self.port.as_str());
                let args = stub_args(host.as_str(), self.port.as_str(), &self.program_args);
                assert(record@ == report_line(host@, self.port@));
                Some(RankPlan { record, stub_args: args })
            },
            None => None,
        }
    }
}

/// The control address `host:base_port` on this machine, or `None` when the
/// machine's name cannot be had.
pub fn local_control_address(base_port: usize) -> (r: Option<String>)
    ensures
        r matches Some(s) ==> exists|host: Seq<char>| s@ == host_port(host, base_port as nat),
{
    match machine_hostname() {
        Some(host) => {
            let s = crate::launch::host_port_text(host.as_str(), base_port);
            assert(s@ == host_port(host@, base_port as nat));
            Some(s)
        },
        None => None,
    }
}

} // verus!
