use crate::sync_error::ExecFailure;
use vstd::prelude::*;

verus! {

/// One performed invocation: the program, its argument vector, and what came
/// back — the captured standard output on success, the failure message
/// otherwise.
pub struct Call {
    pub program: Seq<char>,
    pub args: Seq<Seq<char>>,
    pub output: Result<Seq<char>, Seq<char>>,
}

/// The record one `run` appends to a runner's history.
pub open spec fn call_record(
    program: Seq<char>,
    args: Seq<Seq<char>>,
    r: Result<String, ExecFailure>,
) -> Call {
    Call {
        program,
        args,
        output: match r {
            Ok(s) => Ok(s@),
            Err(f) => Err(f.message@),
        },
    }
}

/// The capability every remote operation depends on: run a program with an
/// ordered argument vector and hand back its captured standard output, or a
/// failure. A runner's history records each invocation together with its
/// outcome, so callers' contracts can say exactly which commands were issued
/// and in what order. Nothing is promised of the outcome itself: a runner may
/// fail any invocation.
pub trait CommandRunner: Sized {
    /// Every invocation this runner has performed, oldest first. A runner
    /// that does not model its history reports it empty; only an impl that
    /// overrides this can meet `run`'s contract, so nothing can be concluded
    /// about the calls of one that does not.
    open spec fn history(&self) -> Seq<Call> {
        Seq::empty()
    }

    /// Run `program` with `args`, appending exactly one record — this
    /// invocation and its outcome — to the history.
    fn run(&mut self, program: &str, args: &Vec<String>) -> (r: Result<String, ExecFailure>)
        ensures
            final(self).history() == old(self).history().push(
                call_record(program@, args.deep_view(), r),
            ),
    ;
}

/// The exec-visible record of one invocation, for inspection after a run.
pub struct RecordedCall {
    pub program: String,
    pub args: Vec<String>,
}

/// A deterministic stand-in runner: it answers invocations from a fixed
/// script of responses (in order, failing once the script is exhausted),
/// records every call, and never touches a real process.
pub struct ScriptedRunner {
    responses: Vec<Result<String, ExecFailure>>,
    calls: Vec<RecordedCall>,
    past: Ghost<Seq<Call>>,
}

impl ScriptedRunner {
    /// The responses not yet handed out, next first.
    pub closed spec fn script(&self) -> Seq<Result<String, ExecFailure>> {
        self.responses@
    }

    /// The exec-visible records of the calls performed so far.
    pub closed spec fn recorded(&self) -> Seq<RecordedCall> {
        self.calls@
    }

    /// The exec-visible records agree with the history: one per invocation,
    /// with the same program and the same argument vector.
    pub open spec fn records_match(&self) -> bool {
        &&& self.recorded().len() == self.history().len()
        &&& forall|i: int|
            0 <= i < self.recorded().len() ==> (#[trigger] self.recorded()[i]).program@
                == self.history()[i].program && self.recorded()[i].args.deep_view()
                == self.history()[i].args
    }

    /// A runner that will answer the `i`-th invocation with `responses[i]`.
    pub fn new(responses: Vec<Result<String, ExecFailure>>) -> (r: Self)
        ensures
            r.history() == Seq::<Call>::empty(),
            r.script() == responses@,
            r.records_match(),
    {
        let r = ScriptedRunner { responses, calls: Vec::new(), past: Ghost(Seq::empty()) };
        proof {
            assert(r.recorded().len() == 0);
        }
        r
    }

    /// The calls performed so far, oldest first.
    pub fn calls(&self) -> (r: &Vec<RecordedCall>)
        ensures
            r@ == self.recorded(),
    {
        &self.calls
    }
}

impl CommandRunner for ScriptedRunner {
    closed spec fn history(&self) -> Seq<Call> {
        self.past@
    }

    fn run(&mut self, program: &str, args: &Vec<String>) -> (r: Result<String, ExecFailure>)
        ensures
            old(self).script().len() > 0 ==> r == old(self).script()[0] && final(self).script()
                == old(self).script().skip(1),
            old(self).script().len() == 0 ==> final(self).script() == old(self).script() && (
            r matches Err(f) && f.message@ == "script exhausted"@),
            old(self).records_match() ==> final(self).records_match(),
    {
        let ghost old_self = *self;
        let resp: Result<String, ExecFailure> = if self.responses.len() > 0 {
            let head = self.responses.remove(0);
            proof {
                assert(self.responses@ =~= old_self.responses@.skip(1));
            }
            head
        } else {
            Err(ExecFailure { message: String::from_str("script exhausted") })
        };
        let mut recorded_args: Vec<String> = Vec::new();
        let mut k: usize = 0;
        proof {
            assert(recorded_args.deep_view() =~= args.deep_view().take(0));
        }
        while k < args.len()
            invariant
                0 <= k <= args@.len(),
                recorded_args.deep_view() == args.deep_view().take(k as int),
            decreases args@.len() - k,
        {
            let ghost pre = recorded_args.deep_view();
            recorded_args.push(args[k].clone());
            proof {
                assert(recorded_args.deep_view() =~= pre.push(args.deep_view()[k as int]));
                assert(recorded_args.deep_view() =~= args.deep_view().take(k + 1));
            }
            k += 1;
        }
        proof {
            assert(recorded_args.deep_view() =~= args.deep_view());
        }
        let record = RecordedCall { program: String::from_str(program), args: recorded_args };
        let ghost record_program = record.program@;
        let ghost record_args = record.args.deep_view();
        self.calls.push(record);
        self.past = Ghost(self.past@.push(call_record(program@, args.deep_view(), resp)));
        proof {
            if old_self.records_match() {
                assert forall|i: int|
                    0 <= i < self.recorded().len() implies (#[trigger] self.recorded()[i]).program@
                    == self.history()[i].program && self.recorded()[i].args.deep_view()
                    == self.history()[i].args by {
                    if i < old_self.recorded().len() {
                        assert(self.recorded()[i] == old_self.recorded()[i]);
                        assert(self.history()[i] == old_self.history()[i]);
                    } else {
                        assert(self.recorded()[i].program@ == record_program);
                        assert(self.recorded()[i].args.deep_view() == record_args);
                    }
                }
            }
        }
        resp
    }
}

} // verus!
