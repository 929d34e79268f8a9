pub mod vga_buffer;

use vstd::prelude::*;
use vstd::string::StringExecFns;

verus! {

/// Status code written to the emulator's debug-exit port: the emulator maps it
/// to its own process exit status, so a test runner outside the machine can
/// tell success from failure.
#[derive(Clone, Copy, Debug, PartialEq, Eq, Structural)]
pub enum QemuExitCode {
    Success,
    Failed,
}

impl QemuExitCode {
    /// The 32-bit value the exit protocol writes for this code.
    pub open spec fn spec_code(self) -> u32 {
        match self {
            QemuExitCode::Success => 0x10,
            QemuExitCode::Failed => 0x11,
        }
    }

    pub fn code(self) -> (r: u32)
        ensures
            r == self.spec_code(),
    {
        match self {
            QemuExitCode::Success => 0x10,
            QemuExitCode::Failed => 0x11,
        }
    }
}

/// The one capability a test case exposes: it can be invoked with no
/// arguments and no result. A case passes when `run` returns normally and
/// fails when it aborts; there is no structured outcome beyond that.
pub trait Testable {
    fn run(&self);
}

/// The decimal digit character for `d`.
pub open spec fn spec_digit_char(d: nat) -> char {
    ((0x30 + d) as u32) as char
}

/// The usual decimal rendering of `n`: most significant digit first, no
/// leading zeros except for `n == 0` itself.
pub open spec fn spec_decimal(n: nat) -> Seq<char>
    decreases n,
{
    if n < 10 {
        seq![spec_digit_char(n)]
    } else {
        spec_decimal(n / 10) + seq![spec_digit_char(n % 10)]
    }
}

fn digit_str(d: usize) -> (r: &'static str)
    requires
        d < 10,
    ensures
        r@ == seq![spec_digit_char(d as nat)],
{
    match d {
        0 => {
            proof {
                reveal_strlit("0");
                assert("0"@ =~= seq![spec_digit_char(0)]);
            }
            "0"
        },
        1 => {
            proof {
                reveal_strlit("1");
                assert("1"@ =~= seq![spec_digit_char(1)]);
            }
            "1"
        },
        2 => {
            proof {
                reveal_strlit("2");
                assert("2"@ =~= seq![spec_digit_char(2)]);
            }
            "2"
        },
        3 => {
            proof {
                reveal_strlit("3");
                assert("3"@ =~= seq![spec_digit_char(3)]);
            }
            "3"
        },
        4 => {
            proof {
                reveal_strlit("4");
                assert("4"@ =~= seq![spec_digit_char(4)]);
            }
            "4"
        },
        5 => {
            proof {
                reveal_strlit("5");
                assert("5"@ =~= seq![spec_digit_char(5)]);
            }
            "5"
        },
        6 => {
            proof {
                reveal_strlit("6");
                assert("6"@ =~= seq![spec_digit_char(6)]);
            }
            "6"
        },
        7 => {
            proof {
                reveal_strlit("7");
                assert("7"@ =~= seq![spec_digit_char(7)]);
            }
            "7"
        },
        8 => {
            proof {
                reveal_strlit("8");
                assert("8"@ =~= seq![spec_digit_char(8)]);
            }
            "8"
        },
        _ => {
            proof {
                reveal_strlit("9");
                assert("9"@ =~= seq![spec_digit_char(9)]);
            }
            "9"
        },
    }
}

/// Renders `n` in decimal.
pub fn decimal_string(n: usize) -> (r: String)
    ensures
        r@ == spec_decimal(n as nat),
    decreases n,
{
    if n < 10 {
        digit_str(n).to_owned()
    } else {
        proof {
            assert(n / 10 < n) by (nonlinear_arith)
                requires
                    n >= 10,
            ;
        }
        let mut out = decimal_string(n / 10);
        out.append(digit_str(n % 10));
        out
    }
}

/// The announcement line the runner emits before any case runs.
pub open spec fn spec_running_line(n: nat) -> Seq<char> {
    "Running "@ + spec_decimal(n) + " tests"@
}

/// The transcript line for a case that returned normally.
pub open spec fn spec_ok_line(name: Seq<char>) -> Seq<char> {
    name + "...\t[ok]"@
}

/// The transcript line that marks an aborted case.
pub open spec fn spec_failed_line() -> Seq<char> {
    "[failed]"@
}

/// The transcript line that carries an aborted case's description.
pub open spec fn spec_error_line(description: Seq<char>) -> Seq<char> {
    "Error: "@ + description
}

pub fn running_line(n: usize) -> (r: String)
    ensures
        r@ == spec_running_line(n as nat),
{
    let mut line = "Running ".to_owned();
    let num = decimal_string(n);
    line.append(num.as_str());
    line.append(" tests");
    line
}

pub fn ok_line(name: &str) -> (r: String)
    ensures
        r@ == spec_ok_line(name@),
{
    let mut line = name.to_owned();
    line.append("...\t[ok]");
    line
}

pub fn failed_line() -> (r: String)
    ensures
        r@ == spec_failed_line(),
{
    "[failed]".to_owned()
}

pub fn error_line(description: &str) -> (r: String)
    ensures
        r@ == spec_error_line(description@),
{
    let mut line = "Error: ".to_owned();
    line.append(description);
    line
}

/// How one case ended: a normal return, or an abort whose description the
/// panic path captured.
#[derive(Debug)]
pub enum CaseOutcome {
    Passed,
    Aborted { description: String },
}

/// What the harness hands outward after a run: the diagnostic transcript in
/// order, and the exit-protocol code that follows it.
#[derive(Debug)]
pub struct TestReport {
    pub lines: Vec<String>,
    pub exit: QemuExitCode,
}

/// The position of the first aborted case, or the sequence's length when
/// every case returned normally.
pub open spec fn first_abort(outcomes: Seq<CaseOutcome>) -> int
    decreases outcomes.len(),
{
    if outcomes.len() == 0 {
        0
    } else if outcomes[0] is Aborted {
        0
    } else {
        1 + first_abort(outcomes.drop_first())
    }
}

proof fn lemma_first_abort_at(outcomes: Seq<CaseOutcome>, k: int)
    requires
        0 <= k <= outcomes.len(),
        forall|j: int| 0 <= j < k ==> !(#[trigger] outcomes[j] is Aborted),
        k < outcomes.len() ==> outcomes[k] is Aborted,
    ensures
        first_abort(outcomes) == k,
    decreases outcomes.len(),
{
    if outcomes.len() > 0 && k > 0 {
        assert(!(outcomes[0] is Aborted));
        assert forall|j: int| 0 <= j < k - 1 implies !(#[trigger] outcomes.drop_first()[j]
            is Aborted) by {
            assert(outcomes.drop_first()[j] == outcomes[j + 1]);
        }
        if k - 1 < outcomes.drop_first().len() {
            assert(outcomes.drop_first()[k - 1] == outcomes[k]);
        }
        lemma_first_abort_at(outcomes.drop_first(), k - 1);
    }
}

/// Runs the harness over the recorded endings of an ordered case sequence:
/// announces the count, emits one `[ok]` line per case until the first abort,
/// and either reports every case passed (exit `Success`) or stops at the
/// first abort with a `[failed]` line and its description (exit `Failed`) —
/// later cases are never reached, as an abort ends the whole run.
pub fn test_runner(names: &Vec<String>, outcomes: &Vec<CaseOutcome>) -> (r: TestReport)
    requires
        names.len() == outcomes.len(),
    ensures
        ({
            let n = outcomes@.len() as int;
            let k = first_abort(outcomes@);
            &&& r.exit == (if k == n {
                QemuExitCode::Success
            } else {
                QemuExitCode::Failed
            })
            &&& r.lines@.len() == (if k == n {
                n + 1
            } else {
                k + 3
            })
            &&& r.lines@[0]@ == spec_running_line(outcomes@.len())
            &&& forall|i: int| 0 <= i < k ==> r.lines@[i + 1]@ == spec_ok_line(names@[i]@)
            &&& k < n ==> r.lines@[k + 1]@ == spec_failed_line() && r.lines@[k + 2]@
                == spec_error_line(outcomes@[k]->description@)
        }),
{
    let n = outcomes.len();
    let mut lines: Vec<String> = Vec::new();
    lines.push(running_line(n));
    let mut i: usize = 0;
    while i < n
        invariant
            i <= n,
            n == outcomes@.len(),
            names@.len() == n,
            lines@.len() == i + 1,
            lines@[0]@ == spec_running_line(n as nat),
            forall|j: int| 0 <= j < i ==> !(#[trigger] outcomes@[j] is Aborted),
            forall|j: int| 0 <= j < i ==> lines@[j + 1]@ == spec_ok_line(names@[j]@),
        decreases n - i,
    {
        match &outcomes[i] {
            CaseOutcome::Passed => {
                lines.push(ok_line(names[i].as_str()));
                i = i + 1;
            },
            CaseOutcome::Aborted { description } => {
                lines.push(failed_line());
                lines.push(error_line(description.as_str()));
                proof {
                    lemma_first_abort_at(outcomes@, i as int);
                }
                return TestReport { lines, exit: QemuExitCode::Failed };
            },
        }
    }
    proof {
        lemma_first_abort_at(outcomes@, n as int);
    }
    TestReport { lines, exit: QemuExitCode::Success }
}

/// The report the panic path produces when a case aborts: the `[failed]`
/// marker, the failure description, and the `Failed` exit code.
pub fn test_panic_handler(description: &str) -> (r: TestReport)
    ensures
        r.exit == QemuExitCode::Failed,
        r.lines@.len() == 2,
        r.lines@[0]@ == spec_failed_line(),
        r.lines@[1]@ == spec_error_line(description@),
{
    let mut lines: Vec<String> = Vec::new();
    lines.push(failed_line());
    lines.push(error_line(description));
    TestReport { lines, exit: QemuExitCode::Failed }
}

/// The simplest possible case: an assertion that can never fail.
pub fn trivial_assertion() {
    assert(1int == 1int);
}

} // verus!
