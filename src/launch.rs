//! What to launch, and the launcher command line that starts every rank
//! under the debug-stub helper.
use vstd::prelude::*;
use crate::text::{decimal, decimal_text, push_all, texts};

verus! {

/// The highest TCP port number.
pub const MAX_PORT: usize = 65535;

/// The front end that consumes the attach artifact.
#[derive(Clone, Copy, Debug, PartialEq, Eq, Structural)]
pub enum Frontend {
    /// A debugger command script, then the interactive debugger itself.
    Gdb,
    /// A compound launch descriptor for the IDE.
    VsCode,
}

/// One group of identical ranks.
#[derive(Clone, Debug)]
pub struct ProcessGroup {
    /// How many ranks run this group's command.
    pub replicas: usize,
    /// Launcher flags that apply to this group's ranks only.
    pub launcher_args: Vec<String>,
    /// The program to debug and its arguments; the first is the program path.
    pub program_args: Vec<String>,
}

/// Everything needed to launch the job and to attach to it.
#[derive(Clone, Debug)]
pub struct LaunchSpec {
    /// The groups, in launch order.
    pub groups: Vec<ProcessGroup>,
    /// Launcher flags placed once, ahead of every group.
    pub global_launcher_args: Vec<String>,
    /// Extra arguments for the interactive debugger.
    pub debugger_args: Vec<String>,
    /// The control listener's port; rank `i` is given port `base_port + i + 1`.
    pub base_port: usize,
    /// Path of the per-rank helper that reports back and becomes the debug stub.
    pub helper: String,
    /// Path of the debug stub.
    pub stub: String,
    /// Path of the debugger.
    pub debugger: String,
    /// Which artifact to produce.
    pub frontend: Frontend,
    /// Build the command line only: open no socket and start no process.
    pub dry_run: bool,
    /// Print diagnostics, and ask the helpers to do so too.
    pub verbose: bool,
}

/// The number of ranks of all groups of `gs`.
pub open spec fn total_ranks(gs: Seq<ProcessGroup>) -> nat
    decreases gs.len(),
{
    if gs.len() == 0 {
        0
    } else {
        total_ranks(gs.drop_last()) + gs.last().replicas as nat
    }
}

/// The group that rank `r` belongs to, ranks being numbered group after group.
pub open spec fn group_of_rank(gs: Seq<ProcessGroup>, r: nat) -> int
    decreases gs.len(),
{
    if gs.len() == 0 {
        0
    } else if r >= total_ranks(gs.drop_last()) {
        gs.len() - 1
    } else {
        group_of_rank(gs.drop_last(), r)
    }
}

/// The verbosity argument handed to each helper.
pub open spec fn verbosity_flag(verbose: bool) -> Seq<char> {
    if verbose {
        "1"@
    } else {
        "0"@
    }
}

/// `host:port`.
pub open spec fn host_port(host: Seq<char>, port: nat) -> Seq<char> {
    host + ":"@ + decimal(port)
}

impl LaunchSpec {
    /// Every group runs at least one rank of a named program, and every rank's
    /// port is a TCP port.
    pub open spec fn wf(&self) -> bool {
        &&& forall|g: int|
            0 <= g < self.groups@.len() ==> {
                &&& (#[trigger] self.groups@[g]).replicas > 0
                &&& self.groups@[g].program_args@.len() > 0
            }
        &&& self.base_port + total_ranks(self.groups@) <= MAX_PORT
    }

    /// The number of ranks.
    pub open spec fn rank_count(&self) -> nat {
        total_ranks(self.groups@)
    }

    /// The debug port assigned to rank `r`.
    pub open spec fn rank_port(&self, r: nat) -> nat {
        (self.base_port + r + 1) as nat
    }

    /// The group of rank `r`.
    pub open spec fn rank_group(&self, r: nat) -> ProcessGroup {
        self.groups@[group_of_rank(self.groups@, r)]
    }

    /// The program path run by rank `r`.
    pub open spec fn rank_program(&self, r: nat) -> Seq<char> {
        self.rank_group(r).program_args@[0]@
    }

    /// The launcher arguments of rank `r`: one process of the helper, told the
    /// control address, its port and the verbosity, followed by the stub and
    /// the program's command line.
    pub open spec fn rank_args(&self, control: Seq<char>, r: nat) -> Seq<Seq<char>> {
        seq!["-np"@, "1"@] + texts(self.rank_group(r).launcher_args@) + seq![
            self.helper@,
            control,
            decimal(self.rank_port(r)),
            verbosity_flag(self.verbose),
            self.stub@,
        ] + texts(self.rank_group(r).program_args@)
    }

    /// The arguments of the first `n` ranks, a `:` between two ranks.
    pub open spec fn ranks_args(&self, control: Seq<char>, n: nat) -> Seq<Seq<char>>
        decreases n,
    {
        if n == 0 {
            seq![]
        } else if n == 1 {
            self.rank_args(control, 0)
        } else {
            self.ranks_args(control, (n - 1) as nat) + seq![":"@] + self.rank_args(
                control,
                (n - 1) as nat,
            )
        }
    }

    /// The whole launcher command line.
    pub open spec fn launch_command(&self, control: Seq<char>) -> Seq<Seq<char>> {
        texts(self.global_launcher_args@) + self.ranks_args(control, self.rank_count())
    }

    /// The number of ranks.
    pub fn total_ranks(&self) -> (r: usize)
        requires
            self.wf(),
        ensures
            r == self.rank_count(),
    {
        let mut total: usize = 0;
        let mut g: usize = 0;
        while g < self.groups.len()
            invariant
                self.wf(),
                g <= self.groups@.len(),
                total == total_ranks(self.groups@.take(g as int)),
            decreases self.groups@.len() - g,
        {
            proof {
                lemma_take_next(self.groups@, g as int);
                lemma_total_of_prefix(self.groups@, g + 1);
            }
            total = total + self.groups[g].replicas;
            g = g + 1;
        }
        assert(self.groups@.take(g as int) =~= self.groups@);
        total
    }

    /// The launcher command line for the control listener at `control`: the
    /// global flags, then for each rank in launch order its own arguments, with
    /// `:` between two ranks and rank `i` told port `base_port + i + 1`.
    pub fn launcher_args(&self, control: &str) -> (r: Vec<String>)
        requires
            self.wf(),
        ensures
            texts(r@) == self.launch_command(control@),
    {
        let mut out: Vec<String> = Vec::new();
        push_all(&mut out, &self.global_launcher_args);
        assert(texts(out@) =~= texts(self.global_launcher_args@) + self.ranks_args(control@, 0));
        let verbosity = if self.verbose {
            String::from_str("1")
        } else {
            String::from_str("0")
        };
        let mut rank: usize = 0;
        let mut g: usize = 0;
        while g < self.groups.len()
            invariant
                self.wf(),
                g <= self.groups@.len(),
                rank == total_ranks(self.groups@.take(g as int)),
                verbosity@ == verbosity_flag(self.verbose),
                texts(out@) == texts(self.global_launcher_args@) + self.ranks_args(
                    control@,
                    rank as nat,
                ),
            decreases self.groups@.len() - g,
        {
            let group = &self.groups[g];
            proof {
                lemma_take_next(self.groups@, g as int);
                lemma_total_of_prefix(self.groups@, g + 1);
            }
            let mut p: usize = 0;
            while p < group.replicas
                invariant
                    self.wf(),
                    g < self.groups@.len(),
                    *group == self.groups@[g as int],
                    p <= group.replicas,
                    rank == total_ranks(self.groups@.take(g as int)) + p,
                    total_ranks(self.groups@.take(g + 1)) == total_ranks(self.groups@.take(g as int))
                        + group.replicas,
                    total_ranks(self.groups@.take(g + 1)) <= total_ranks(self.groups@),
                    verbosity@ == verbosity_flag(self.verbose),
                    texts(out@) == texts(self.global_launcher_args@) + self.ranks_args(
                        control@,
                        rank as nat,
                    ),
                decreases group.replicas - p,
            {
                proof {
                    lemma_rank_in_group(self.groups@, g as int, rank as nat);
                }
                let ghost before = texts(out@);
                if rank > 0 {
                    out.push(String::from_str(":"));
                }
                let ghost with_sep = texts(out@);
                assert(with_sep =~= if rank > 0 {
                    before + seq![":"@]
                } else {
                    before
                });
                let ghost mark = texts(out@);
                assert(self.rank_group(rank as nat) == *group);
                push_text(&mut out, String::from_str("-np"));
                push_text(&mut out, String::from_str("1"));
                let ghost m1 = texts(out@);
                push_all(&mut out, &group.launcher_args);
                let ghost m2 = texts(out@);
                push_text(&mut out, self.helper.clone());
                push_text(&mut out, String::from_str(control));
                push_text(&mut out, decimal_text(self.base_port + rank + 1));
                push_text(&mut out, verbosity.clone());
                push_text(&mut out, self.stub.clone());
                let ghost m3 = texts(out@);
                push_all(&mut out, &group.program_args);
                assert(m1 =~= mark + seq!["-np"@, "1"@]);
                assert(m3 =~= m2 + seq![
                    self.helper@,
                    control@,
                    decimal(self.rank_port(rank as nat)),
                    verbosity_flag(self.verbose),
                    self.stub@,
                ]);
                assert(texts(out@) =~= mark + self.rank_args(control@, rank as nat));
                assert(texts(out@) =~= texts(self.global_launcher_args@) + self.ranks_args(
                    control@,
                    (rank + 1) as nat,
                ));
                rank = rank + 1;
                p = p + 1;
            }
            g = g + 1;
        }
        assert(self.groups@.take(g as int) =~= self.groups@);
        out
    }
}

impl LaunchSpec {
    /// The program path of each rank, in launch order.
    pub fn rank_programs(&self) -> (r: Vec<String>)
        requires
            self.wf(),
        ensures
            r@.len() == self.rank_count(),
            forall|i: int| 0 <= i < r@.len() ==> (#[trigger] r@[i])@ == self.rank_program(i as nat),
    {
        let mut out: Vec<String> = Vec::new();
        let mut g: usize = 0;
        while g < self.groups.len()
            invariant
                self.wf(),
                g <= self.groups@.len(),
                out@.len() == total_ranks(self.groups@.take(g as int)),
                forall|i: int|
                    0 <= i < out@.len() ==> (#[trigger] out@[i])@ == self.rank_program(i as nat),
            decreases self.groups@.len() - g,
        {
            let group = &self.groups[g];
            proof {
                lemma_take_next(self.groups@, g as int);
                lemma_total_of_prefix(self.groups@, g + 1);
            }
            let program = &group.program_args[0];
            let mut p: usize = 0;
            while p < group.replicas
                invariant
                    self.wf(),
                    g < self.groups@.len(),
                    *group == self.groups@[g as int],
                    *program == group.program_args@[0],
                    p <= group.replicas,
                    out@.len() == total_ranks(self.groups@.take(g as int)) + p,
                    total_ranks(self.groups@.take(g + 1)) == total_ranks(self.groups@.take(g as int))
                        + group.replicas,
                    total_ranks(self.groups@.take(g + 1)) <= total_ranks(self.groups@),
                    forall|i: int|
                        0 <= i < out@.len() ==> (#[trigger] out@[i])@ == self.rank_program(i as nat),
                decreases group.replicas - p,
            {
                proof {
                    lemma_rank_in_group(self.groups@, g as int, out@.len() as nat);
                }
                out.push(program.clone());
                p = p + 1;
            }
            g = g + 1;
        }
        assert(self.groups@.take(g as int) =~= self.groups@);
        out
    }
}

/// Each rank is told its own port, `base_port + i + 1` for rank `i`: a TCP port
/// above the control port, and no two ranks are told the same one.
pub proof fn lemma_rank_ports(spec: LaunchSpec, control: Seq<char>, i: nat, j: nat)
    requires
        spec.wf(),
        i < spec.rank_count(),
        j < spec.rank_count(),
        i != j,
    ensures
        spec.rank_args(control, i)[spec.rank_group(i).launcher_args@.len() + 4int] == decimal(
            spec.rank_port(i),
        ),
        spec.rank_port(i) == spec.base_port + i + 1,
        spec.base_port < spec.rank_port(i) <= MAX_PORT,
        spec.rank_port(i) != spec.rank_port(j),
{
}

/// The prefix of `gs` one longer than `take(g)` ends with group `g`.
pub proof fn lemma_take_next(gs: Seq<ProcessGroup>, g: int)
    requires
        0 <= g < gs.len(),
    ensures
        total_ranks(gs.take(g + 1)) == total_ranks(gs.take(g)) + gs[g].replicas,
{
    assert(gs.take(g + 1).drop_last() =~= gs.take(g));
}

/// A prefix never has more ranks than the whole.
pub proof fn lemma_total_of_prefix(gs: Seq<ProcessGroup>, k: int)
    requires
        0 <= k <= gs.len(),
    ensures
        total_ranks(gs.take(k)) <= total_ranks(gs),
    decreases gs.len(),
{
    if k < gs.len() {
        assert(gs.drop_last().take(k) =~= gs.take(k));
        lemma_total_of_prefix(gs.drop_last(), k);
    } else {
        assert(gs.take(k) =~= gs);
    }
}

/// A rank counted among group `g`'s belongs to group `g`.
pub proof fn lemma_rank_in_group(gs: Seq<ProcessGroup>, g: int, r: nat)
    requires
        0 <= g < gs.len(),
        total_ranks(gs.take(g)) <= r < total_ranks(gs.take(g)) + gs[g].replicas,
    ensures
        group_of_rank(gs, r) == g,
    decreases gs.len(),
{
    if g == gs.len() - 1 {
        assert(gs.take(g) =~= gs.drop_last());
    } else {
        lemma_take_next(gs, g);
        assert(gs.drop_last().take(g + 1) =~= gs.take(g + 1));
        assert(gs.drop_last().take(g) =~= gs.take(g));
        lemma_total_of_prefix(gs.drop_last(), g + 1);
        lemma_rank_in_group(gs.drop_last(), g, r);
    }
}

/// Appends `s` to `out`.
fn push_text(out: &mut Vec<String>, s: String)
    ensures
        texts(final(out)@) == texts(old(out)@).push(s@),
{
    let ghost before = out@;
    out.push(s);
    assert(texts(out@) =~= texts(before).push(s@));
}

/// `host:port`, the form of a control address and of an endpoint.
pub fn host_port_text(host: &str, port: usize) -> (r: String)
    ensures
        r@ == host_port(host@, port as nat),
{
    let mut s = String::from_str(host);
    s.append(":");
    let digits = decimal_text(port);
    s.append(digits.as_str());
    s
}

} // verus!
