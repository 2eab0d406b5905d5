use vstd::prelude::*;
use crate::dispatch::join_lines;
use crate::text::{push_str, text_of, trim};
use crate::tools::{
    extract_text_content, fresh_calls, lacks, lemma_no_blocks, open_tag, parse_tool_calls,
    strip_blocks, CallView, ToolCall,
};

verus! {

/// How many generation rounds one run may take at most.
pub const MAX_ITERATIONS: usize = 5;

/// A turn of the conversation.
#[derive(Clone)]
pub struct Message {
    pub role: String,
    pub content: String,
}

impl View for Message {
    type V = (Seq<char>, Seq<char>);

    open spec fn view(&self) -> (Seq<char>, Seq<char>) {
        (self.role@, self.content@)
    }
}

impl Message {
    /// A copy holding the same text.
    pub fn duplicate(&self) -> (r: Message)
        ensures
            r@ == self@,
    {
        Message { role: self.role.clone(), content: self.content.clone() }
    }
}

/// Why the generator could not answer.
pub enum InferenceError {
    ModelNotLoaded,
    BackendInitError(String),
    ModelLoadError(String),
    ContextError(String),
    TokenizeError(String),
    InferenceError(String),
}

/// The text that explains `e`.
pub open spec fn inference_error_text(e: InferenceError) -> Seq<char> {
    match e {
        InferenceError::ModelNotLoaded => "Model not loaded"@,
        InferenceError::BackendInitError(m) => "Failed to initialize backend: "@ + m@,
        InferenceError::ModelLoadError(m) => "Failed to load model: "@ + m@,
        InferenceError::ContextError(m) => "Failed to create context: "@ + m@,
        InferenceError::TokenizeError(m) => "Failed to tokenize: "@ + m@,
        InferenceError::InferenceError(m) => "Failed during inference: "@ + m@,
    }
}

impl InferenceError {
    /// The text that explains this failure.
    pub fn message(&self) -> (r: String)
        ensures
            r@ == inference_error_text(*self),
    {
        let mut out: Vec<char> = Vec::new();
        match self {
            InferenceError::ModelNotLoaded => push_str(&mut out, "Model not loaded"),
            InferenceError::BackendInitError(m) => {
                push_str(&mut out, "Failed to initialize backend: ");
                push_str(&mut out, m.as_str());
            },
            InferenceError::ModelLoadError(m) => {
                push_str(&mut out, "Failed to load model: ");
                push_str(&mut out, m.as_str());
            },
            InferenceError::ContextError(m) => {
                push_str(&mut out, "Failed to create context: ");
                push_str(&mut out, m.as_str());
            },
            InferenceError::TokenizeError(m) => {
                push_str(&mut out, "Failed to tokenize: ");
                push_str(&mut out, m.as_str());
            },
            InferenceError::InferenceError(m) => {
                push_str(&mut out, "Failed during inference: ");
                push_str(&mut out, m.as_str());
            },
        }
        text_of(&out)
    }
}

/// The text that tells the caller why a run could not get an answer.
pub open spec fn failure_text(e: InferenceError) -> Seq<char> {
    match e {
        InferenceError::ModelNotLoaded => "No model loaded. Please load a model first."@,
        _ => "Inference error: "@ + inference_error_text(e),
    }
}

impl InferenceError {
    /// The text that tells the caller why a run could not get an answer: a
    /// missing model asks for one to be loaded.
    pub fn failure(&self) -> (r: String)
        ensures
            r@ == failure_text(*self),
    {
        match self {
            InferenceError::ModelNotLoaded => "No model loaded. Please load a model first.".to_owned(),
            _ => {
                let mut out: Vec<char> = Vec::new();
                push_str(&mut out, "Inference error: ");
                push_str(&mut out, self.message().as_str());
                text_of(&out)
            },
        }
    }
}

/// What one run of the loop hands back: the final prose and every call made.
pub struct AgentResponse {
    pub content: String,
    pub tool_calls: Vec<ToolCall>,
}

/// The state of a run in plain values.
pub struct AgentView {
    pub conversation: Seq<(Seq<char>, Seq<char>)>,
    pub calls: Seq<CallView>,
    pub pending: Seq<CallView>,
    pub response: Seq<char>,
    pub prose: Seq<char>,
    pub iteration: nat,
    pub finished: bool,
}

/// The state before the first round.
pub open spec fn initial_view(conversation: Seq<(Seq<char>, Seq<char>)>) -> AgentView {
    AgentView {
        conversation,
        calls: seq![],
        pending: seq![],
        response: seq![],
        prose: seq![],
        iteration: 0,
        finished: false,
    }
}

/// The state once the generator has answered `r`: with no call in it the run
/// ends and its prose is the content; otherwise its calls wait for results.
pub open spec fn after_response(v: AgentView, r: Seq<char>) -> AgentView {
    let found = fresh_calls(r);
    AgentView {
        conversation: v.conversation,
        calls: v.calls,
        pending: found,
        response: r,
        prose: trim(strip_blocks(r)),
        iteration: v.iteration,
        finished: found.len() == 0,
    }
}

/// The pending calls with their results attached.
pub open spec fn attach(pending: Seq<CallView>, results: Seq<Seq<char>>) -> Seq<CallView> {
    Seq::new(
        pending.len(),
        |k: int|
            CallView {
                id: pending[k].id,
                name: pending[k].name,
                arguments: pending[k].arguments,
                result: Some(results[k]),
            },
    )
}

/// The line that reports one call's result to the generator.
pub open spec fn result_line(c: CallView) -> Seq<char> {
    "Tool '"@ + c.name + "' result: "@ + match c.result {
        Some(t) => t,
        None => "No result"@,
    }
}

/// The turn that reports the results of a round.
pub open spec fn results_message(done: Seq<CallView>) -> Seq<char> {
    "[Tool Results]\n"@ + join_lines(done.map_values(|c: CallView| result_line(c)))
}

/// The state once the pending calls have run with `results`: the raw answer
/// and a report of the results join the conversation, the calls join those
/// made, and the run ends when the ceiling is reached.
pub open spec fn after_results(v: AgentView, results: Seq<Seq<char>>) -> AgentView {
    let done = attach(v.pending, results);
    AgentView {
        conversation: v.conversation.push(("assistant"@, v.response)).push(
            ("user"@, results_message(done)),
        ),
        calls: v.calls + done,
        pending: seq![],
        response: v.response,
        prose: v.prose,
        iteration: v.iteration + 1,
        finished: v.iteration + 1 >= MAX_ITERATIONS,
    }
}

/// One run of the loop that connects a generator to the file tools. The
/// caller asks the generator for an answer to `conversation()`, hands it to
/// `on_response`, runs the calls of `pending_calls()` and hands their results
/// to `on_results`, until either says that the run is finished.
pub struct AgentLoop {
    conversation: Vec<Message>,
    calls: Vec<ToolCall>,
    pending: Vec<ToolCall>,
    response: String,
    prose: String,
    iteration: usize,
    finished: bool,
}

impl View for AgentLoop {
    type V = AgentView;

    closed spec fn view(&self) -> AgentView {
        AgentView {
            conversation: self.conversation@.map_values(|m: Message| m@),
            calls: self.calls@.map_values(|c: ToolCall| c@),
            pending: self.pending@.map_values(|c: ToolCall| c@),
            response: self.response@,
            prose: self.prose@,
            iteration: self.iteration as nat,
            finished: self.finished,
        }
    }
}

impl AgentLoop {
    /// The iteration count stays within the ceiling.
    pub open spec fn wf(&self) -> bool {
        &&& self@.iteration <= MAX_ITERATIONS
        &&& !self@.finished ==> self@.iteration < MAX_ITERATIONS
    }

    /// A run that starts from `messages`.
    pub fn new(messages: Vec<Message>) -> (r: AgentLoop)
        ensures
            r.wf(),
            r@ == initial_view(messages@.map_values(|m: Message| m@)),
    {
        let r = AgentLoop {
            conversation: messages,
            calls: Vec::new(),
            pending: Vec::new(),
            response: String::new(),
            prose: String::new(),
            iteration: 0,
            finished: false,
        };
        assert(r@.calls =~= Seq::<CallView>::empty());
        assert(r@.pending =~= Seq::<CallView>::empty());
        r
    }

    /// The conversation so far.
    pub fn conversation(&self) -> (r: &Vec<Message>)
        ensures
            r@.map_values(|m: Message| m@) == self@.conversation,
    {
        &self.conversation
    }

    /// The calls that wait for their results.
    pub fn pending_calls(&self) -> (r: &Vec<ToolCall>)
        ensures
            r@.map_values(|c: ToolCall| c@) == self@.pending,
    {
        &self.pending
    }

    /// Whether the run has ended.
    pub fn is_finished(&self) -> (r: bool)
        ensures
            r == self@.finished,
    {
        self.finished
    }

    /// How many rounds of calls have run.
    pub fn iteration(&self) -> (r: usize)
        ensures
            r == self@.iteration,
    {
        self.iteration
    }

    /// Takes the generator's answer; returns whether the run has ended.
    pub fn on_response(&mut self, response: String) -> (r: bool)
        requires
            old(self).wf(),
            !old(self)@.finished,
            old(self)@.pending.len() == 0,
        ensures
            final(self).wf(),
            final(self)@ == after_response(old(self)@, response@),
            r == final(self)@.finished,
    {
        let found = parse_tool_calls(response.as_str());
        let prose = extract_text_content(response.as_str());
        self.finished = found.len() == 0;
        self.pending = found;
        self.prose = prose;
        self.response = response;
        self.finished
    }

    /// Takes the results of the pending calls, in their order; returns
    /// whether the run has ended.
    pub fn on_results(&mut self, results: Vec<String>) -> (r: bool)
        requires
            old(self).wf(),
            !old(self)@.finished,
            old(self)@.pending.len() > 0,
            results@.len() == old(self)@.pending.len(),
        ensures
            final(self).wf(),
            final(self)@ == after_results(old(self)@, results@.map_values(|t: String| t@)),
            r == final(self)@.finished,
    {
        let ghost v = self@;
        let ghost texts = results@.map_values(|t: String| t@);
        let ghost done = attach(v.pending, texts);
        let n = self.pending.len();
        let mut report: Vec<char> = Vec::new();
        push_str(&mut report, "[Tool Results]\n");
        let mut i: usize = 0;
        while i < n
            invariant
                n == self.pending@.len(),
                n == results@.len(),
                v == old(self)@,
                self.pending@.map_values(|c: ToolCall| c@) == v.pending,
                self.calls@.map_values(|c: ToolCall| c@) == v.calls + done.subrange(0, i as int),
                texts == results@.map_values(|t: String| t@),
                done == attach(v.pending, texts),
                0 <= i <= n,
                self.conversation == old(self).conversation,
                self.response == old(self).response,
                self.prose == old(self).prose,
                self.iteration == old(self).iteration,
                self.finished == old(self).finished,
                report@ == "[Tool Results]\n"@ + join_lines(
                    done.subrange(0, i as int).map_values(|c: CallView| result_line(c)),
                ),
            decreases n - i,
        {
            let p = &self.pending[i];
            let c = ToolCall {
                id: p.id.clone(),
                name: p.name.clone(),
                arguments: p.arguments.clone(),
                result: Some(results[i].clone()),
            };
            assert(c@ == done[i as int]);
            let ghost prev = report@;
            if i > 0 {
                push_str(&mut report, "\n");
            }
            push_str(&mut report, "Tool '");
            push_str(&mut report, c.name.as_str());
            push_str(&mut report, "' result: ");
            push_str(&mut report, results[i].as_str());
            proof {
                let ls = done.subrange(0, i + 1).map_values(|c: CallView| result_line(c));
                assert(ls.drop_last() =~= done.subrange(0, i as int).map_values(
                    |c: CallView| result_line(c),
                ));
                assert(ls.last() == result_line(done[i as int]));
                if i == 0 {
                    assert(ls.len() == 1);
                }
            }
            let ghost before = self.calls@;
            let ghost cv = c@;
            self.calls.push(c);
            proof {
                let a = self.calls@.map_values(|c: ToolCall| c@);
                let b = v.calls + done.subrange(0, i + 1);
                let a0 = before.map_values(|c: ToolCall| c@);
                let b0 = v.calls + done.subrange(0, i as int);
                assert(a0.len() == b0.len());
                assert forall|k: int| 0 <= k < a.len() implies a[k] == b[k] by {
                    if k < before.len() {
                        assert(self.calls@[k] == before[k]);
                        assert(a0[k] == b0[k]);
                    } else {
                        assert(self.calls@[k]@ == cv);
                    }
                }
                assert(a =~= b);
            }
            i = i + 1;
        }
        assert(done.subrange(0, n as int) =~= done);
        self.conversation.push(Message { role: "assistant".to_owned(), content: self.response.clone() });
        self.conversation.push(Message { role: "user".to_owned(), content: text_of(&report) });
        self.pending = Vec::new();
        self.iteration = self.iteration + 1;
        self.finished = self.iteration >= MAX_ITERATIONS;
        assert(self@.conversation =~= v.conversation.push(("assistant"@, v.response)).push(
            ("user"@, results_message(done)),
        ));
        assert(self@.pending =~= Seq::<CallView>::empty());
        self.finished
    }

    /// What the run hands back: the last prose and every call made.
    pub fn into_response(self) -> (r: AgentResponse)
        ensures
            r.content@ == self@.prose,
            r.tool_calls@.map_values(|c: ToolCall| c@) == self@.calls,
    {
        AgentResponse { content: self.prose, tool_calls: self.calls }
    }
}

/// The state after rounds in which the generator answers `answers[k]` and the
/// calls of round `k` produce `outputs[k]`, until the run ends or the answers
/// run out.
pub open spec fn run_rounds(
    v: AgentView,
    answers: Seq<Seq<char>>,
    outputs: Seq<Seq<Seq<char>>>,
) -> AgentView
    decreases answers.len(),
{
    if answers.len() == 0 || v.finished {
        v
    } else {
        let v1 = after_response(v, answers[0]);
        if v1.finished {
            v1
        } else {
            run_rounds(after_results(v1, outputs[0]), answers.drop_first(), outputs.drop_first())
        }
    }
}

/// A first answer with no call in it ends the run at once: its trimmed text is
/// the content and no call was made.
pub proof fn lemma_quiet_answer_ends_run(
    conversation: Seq<(Seq<char>, Seq<char>)>,
    answer: Seq<char>,
)
    requires
        lacks(answer, open_tag()),
    ensures
        ({
            let v = run_rounds(initial_view(conversation), seq![answer], seq![]);
            &&& v == after_response(initial_view(conversation), answer)
            &&& v.finished
            &&& v.iteration == 0
            &&& v.prose == trim(answer)
            &&& v.calls.len() == 0
        }),
{
    lemma_no_blocks(answer);
    assert(fresh_calls(answer).len() == 0);
    let v1 = after_response(initial_view(conversation), answer);
    assert(v1.finished);
}

/// Rounds whose answers each hold one call: the run ends exactly when the
/// ceiling is reached, with one call per round, each carrying its result, and
/// the prose of the last answer as content.
#[verifier::rlimit(40)]
proof fn lemma_one_call_rounds(v: AgentView, answers: Seq<Seq<char>>, outputs: Seq<Seq<Seq<char>>>)
    requires
        !v.finished,
        v.iteration < MAX_ITERATIONS,
        v.calls.len() == v.iteration,
        answers.len() <= outputs.len(),
        forall|k: int| 0 <= k < answers.len() ==> fresh_calls(#[trigger] answers[k]).len() == 1,
        forall|k: int| 0 <= k < outputs.len() ==> (#[trigger] outputs[k]).len() == 1,
    ensures
        ({
            let w = run_rounds(v, answers, outputs);
            &&& v.iteration + answers.len() < MAX_ITERATIONS ==> !w.finished && w.iteration
                == v.iteration + answers.len() && w.calls.len() == w.iteration
            &&& v.iteration + answers.len() >= MAX_ITERATIONS ==> w.finished && w.iteration
                == MAX_ITERATIONS && w.calls.len() == MAX_ITERATIONS && w.prose == trim(
                strip_blocks(answers[MAX_ITERATIONS - 1 - v.iteration]),
            )
            &&& forall|k: int| 0 <= k < v.calls.len() ==> w.calls[k] == v.calls[k]
            &&& forall|k: int|
                0 <= k < answers.len() && v.iteration + k < MAX_ITERATIONS ==> w.calls[v.iteration + k]
                    == attach(fresh_calls(#[trigger] answers[k]), outputs[k])[0]
        }),
    decreases answers.len(),
{
    if answers.len() > 0 {
        let v1 = after_response(v, answers[0]);
        assert(!v1.finished);
        let v2 = after_results(v1, outputs[0]);
        let rest_a = answers.drop_first();
        let rest_o = outputs.drop_first();
        assert(v2.calls.len() == v.calls.len() + 1);
        assert(v2.calls[v.iteration as int] == attach(fresh_calls(answers[0]), outputs[0])[0]);
        assert forall|k: int| 0 <= k < v.calls.len() implies v2.calls[k] == v.calls[k] by {}
        if v2.finished {
            assert(run_rounds(v2, rest_a, rest_o) == v2);
            assert(run_rounds(v, answers, outputs) == v2);
            assert forall|k: int|
                0 <= k < answers.len() && v.iteration + k < MAX_ITERATIONS implies run_rounds(v, answers, outputs).calls[v.iteration + k]
                    == attach(fresh_calls(#[trigger] answers[k]), outputs[k])[0] by {
                assert(k == 0);
            }
        } else {
            assert forall|k: int| 0 <= k < rest_a.len() implies fresh_calls(
                #[trigger] rest_a[k],
            ).len() == 1 by {
                assert(rest_a[k] == answers[k + 1]);
            }
            assert forall|k: int| 0 <= k < rest_o.len() implies (
            #[trigger] rest_o[k]).len() == 1 by {
                assert(rest_o[k] == outputs[k + 1]);
            }
            lemma_one_call_rounds(v2, rest_a, rest_o);
            let w = run_rounds(v, answers, outputs);
            assert(w == run_rounds(v2, rest_a, rest_o));
            assert forall|k: int|
                0 <= k < answers.len() && v.iteration + k < MAX_ITERATIONS implies w.calls[v.iteration + k]
                    == attach(fresh_calls(#[trigger] answers[k]), outputs[k])[0] by {
                if k > 0 {
                    assert(rest_a[k - 1] == answers[k]);
                    assert(rest_o[k - 1] == outputs[k]);
                    assert(w.calls[v2.iteration + (k - 1)] == attach(fresh_calls(rest_a[k - 1]), rest_o[k - 1])[0]);
                }
            }
            if v.iteration + answers.len() >= MAX_ITERATIONS {
                assert(rest_a[MAX_ITERATIONS - 1 - v2.iteration] == answers[MAX_ITERATIONS - 1 - v.iteration]);
            }
        }
    }
}

/// When every answer holds exactly one call, a run ends after exactly
/// `MAX_ITERATIONS` rounds, and not before. Its calls are those of the answers
/// in order, each carrying the result of its round, and its content is the
/// prose of the last answer.
pub proof fn lemma_ceiling_ends_run(
    conversation: Seq<(Seq<char>, Seq<char>)>,
    answers: Seq<Seq<char>>,
    outputs: Seq<Seq<Seq<char>>>,
)
    requires
        answers.len() <= outputs.len(),
        forall|k: int| 0 <= k < answers.len() ==> fresh_calls(#[trigger] answers[k]).len() == 1,
        forall|k: int| 0 <= k < outputs.len() ==> (#[trigger] outputs[k]).len() == 1,
    ensures
        ({
            let w = run_rounds(initial_view(conversation), answers, outputs);
            &&& answers.len() < MAX_ITERATIONS ==> !w.finished && w.iteration == answers.len()
            &&& answers.len() >= MAX_ITERATIONS ==> {
                &&& w.finished
                &&& w.iteration == MAX_ITERATIONS
                &&& w.calls.len() == MAX_ITERATIONS
                &&& w.prose == trim(strip_blocks(answers[MAX_ITERATIONS - 1]))
                &&& forall|k: int|
                    0 <= k < MAX_ITERATIONS ==> {
                        &&& (#[trigger] w.calls[k]).name == fresh_calls(answers[k])[0].name
                        &&& w.calls[k].id == fresh_calls(answers[k])[0].id
                        &&& w.calls[k].arguments == fresh_calls(answers[k])[0].arguments
                        &&& w.calls[k].result == Some(outputs[k][0])
                    }
            }
        }),
{
    let v = initial_view(conversation);
    lemma_one_call_rounds(v, answers, outputs);
    let w = run_rounds(v, answers, outputs);
    if answers.len() >= MAX_ITERATIONS {
        assert forall|k: int| 0 <= k < MAX_ITERATIONS implies {
            &&& (#[trigger] w.calls[k]).name == fresh_calls(answers[k])[0].name
            &&& w.calls[k].id == fresh_calls(answers[k])[0].id
            &&& w.calls[k].arguments == fresh_calls(answers[k])[0].arguments
            &&& w.calls[k].result == Some(outputs[k][0])
        } by {
            assert(w.calls[0 + k] == attach(fresh_calls(answers[k]), outputs[k])[0]);
        }
    }
}

} // verus!
