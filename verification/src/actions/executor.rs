//! The bookkeeping of the worker that runs the commands of a batch, one after the other,
//! and has each run recorded.
//!
//! The worker itself spawns the processes and writes the records; what it has to do
//! next, and what a record holds, is decided here.

use vstd::prelude::*;
use vstd::string::StrSliceExecFns;
use crate::config::webhook_views;
use crate::config::Webhook;
use crate::config::WebhookView;
use crate::text::char_is_whitespace;
use crate::text::is_whitespace;
use crate::text::lossy_text;
use crate::text::texts;
use crate::text::trim;
use crate::text::trimmed;
use crate::text::utf8_lossy;

verus! {

/// The tokens of a command line: its longest runs of characters that are not whitespace,
/// in order. A character that is not whitespace goes on the token before it, or starts
/// one where whitespace or nothing stands before it.
pub open spec fn tokens(line: Seq<char>) -> Seq<Seq<char>>
    decreases line.len(),
{
    if line.len() == 0 {
        Seq::empty()
    } else {
        let before = tokens(line.drop_last());
        if is_whitespace(line.last()) {
            before
        } else if line.len() >= 2 && !is_whitespace(line[line.len() - 2]) && before.len() > 0 {
            before.drop_last().push(before.last().push(line.last()))
        } else {
            before.push(seq![line.last()])
        }
    }
}

/// A word: at least one character, and none of them whitespace.
pub open spec fn is_word(text: Seq<char>) -> bool {
    text.len() > 0 && forall|i: int| 0 <= i < text.len() ==> !is_whitespace(#[trigger] text[i])
}

/// Every token of a command line is a word.
pub proof fn lemma_tokens_are_words(line: Seq<char>)
    ensures
        forall|k: int| 0 <= k < tokens(line).len() ==> is_word(#[trigger] tokens(line)[k]),
    decreases line.len(),
{
    if line.len() > 0 {
        let before = tokens(line.drop_last());
        lemma_tokens_are_words(line.drop_last());
        assert forall|k: int| 0 <= k < tokens(line).len() implies is_word(
            #[trigger] tokens(line)[k],
        ) by {
            if is_whitespace(line.last()) {
            } else if line.len() >= 2 && !is_whitespace(line[line.len() - 2]) && before.len() > 0 {
                if k < before.len() - 1 {
                    assert(tokens(line)[k] == before[k]);
                } else {
                    let longer = before.last().push(line.last());
                    assert(is_word(before[before.len() - 1]));
                    assert forall|i: int| 0 <= i < longer.len() implies !is_whitespace(
                        #[trigger] longer[i],
                    ) by {
                        if i < before.last().len() {
                            assert(longer[i] == before.last()[i]);
                        }
                    }
                }
            } else {
                if k < before.len() {
                    assert(tokens(line)[k] == before[k]);
                }
            }
        }
    }
}

/// A command line has no token exactly when it holds nothing but whitespace.
pub proof fn lemma_no_tokens_in_blank_line(line: Seq<char>)
    ensures
        tokens(line).len() == 0 <==> (forall|i: int|
            0 <= i < line.len() ==> is_whitespace(#[trigger] line[i])),
    decreases line.len(),
{
    if line.len() > 0 {
        let front = line.drop_last();
        lemma_no_tokens_in_blank_line(front);
        if is_whitespace(line.last()) {
            if tokens(line).len() == 0 {
                assert forall|i: int| 0 <= i < line.len() implies is_whitespace(
                    #[trigger] line[i],
                ) by {
                    if i < front.len() {
                        assert(front[i] == line[i]);
                    }
                }
            }
            if forall|i: int| 0 <= i < line.len() ==> is_whitespace(#[trigger] line[i]) {
                assert forall|i: int| 0 <= i < front.len() implies is_whitespace(
                    #[trigger] front[i],
                ) by {
                    assert(front[i] == line[i]);
                }
            }
        } else {
            assert(!is_whitespace(line[line.len() - 1]));
        }
    }
}

/// Splits a command line into its tokens. There is no quoting and no escaping: a quote
/// is a character like any other.
pub fn split_command_line(line: &str) -> (parts: Vec<String>)
    ensures
        texts(parts@) == tokens(line@),
{
    let length = line.unicode_len();
    let mut parts: Vec<String> = Vec::new();
    let mut start: usize = 0;
    let mut inside = false;
    let mut i: usize = 0;
    while i < length
        invariant
            i <= length,
            length == line@.len(),
            start <= i,
            inside ==> start < i && !is_whitespace(line@[i - 1]),
            inside ==> tokens(line@.take(i as int)) == texts(parts@).push(
                line@.subrange(start as int, i as int),
            ),
            !inside ==> tokens(line@.take(i as int)) == texts(parts@),
            !inside && i > 0 ==> is_whitespace(line@[i - 1]),
        decreases length - i,
    {
        let c = line.get_char(i);
        let ghost parts_before = texts(parts@);
        proof {
            let next = line@.take(i + 1);
            assert(next.drop_last() =~= line@.take(i as int));
            assert(next.last() == line@[i as int]);
            if i > 0 {
                assert(next[next.len() - 2] == line@[i - 1]);
            }
        }
        if char_is_whitespace(c) {
            if inside {
                let token = line.substring_char(start, i).to_owned();
                parts.push(token);
                assert(texts(parts@) =~= parts_before.push(line@.subrange(start as int, i as int)));
                inside = false;
            }
        } else {
            if !inside {
                start = i;
                inside = true;
                assert(line@.subrange(i as int, i + 1) =~= seq![line@[i as int]]);
            } else {
                assert(line@.subrange(start as int, i + 1) =~= line@.subrange(
                    start as int,
                    i as int,
                ).push(line@[i as int]));
                let ghost before = tokens(line@.take(i as int));
                assert(before.drop_last() =~= parts_before);
            }
        }
        i += 1;
    }
    assert(line@.take(i as int) =~= line@);
    if inside {
        let ghost parts_before = texts(parts@);
        let token = line.substring_char(start, length).to_owned();
        parts.push(token);
        assert(texts(parts@) =~= parts_before.push(line@.subrange(start as int, length as int)));
    }
    parts
}

/// A program and the arguments it is started with.
#[derive(Debug)]
pub struct CommandLine {
    pub program: String,
    pub arguments: Vec<String>,
}

/// A command as specifications see it.
pub struct CommandLineView {
    pub program: Seq<char>,
    pub arguments: Seq<Seq<char>>,
}

impl View for CommandLine {
    type V = CommandLineView;

    open spec fn view(&self) -> CommandLineView {
        CommandLineView { program: self.program@, arguments: texts(self.arguments@) }
    }
}

/// The command that a command line stands for: its first token is the program, the
/// others are the arguments. A line without a token stands for no command.
pub open spec fn command_of(line: Seq<char>) -> Option<CommandLineView> {
    let parts = tokens(line);
    if parts.len() == 0 {
        None
    } else {
        Some(CommandLineView { program: parts.first(), arguments: parts.drop_first() })
    }
}

/// Reads a command line as a program with its arguments.
pub fn parse_command_line(line: &str) -> (command: Option<CommandLine>)
    ensures
        match command {
            Some(command) => command_of(line@) == Some(command@),
            None => command_of(line@).is_none(),
        },
{
    let mut parts = split_command_line(line);
    if parts.len() == 0 {
        None
    } else {
        let ghost all = texts(parts@);
        let program = parts.remove(0);
        assert(texts(parts@) =~= all.drop_first());
        Some(CommandLine { program, arguments: parts })
    }
}

/// What a command left behind when it exited.
#[derive(Debug)]
pub struct ProcessOutput {
    pub exit_code: i32,
    pub stdout: Vec<u8>,
    pub stderr: Vec<u8>,
}

/// The output of a process as specifications see it.
pub struct ProcessOutputView {
    pub exit_code: i32,
    pub stdout: Seq<u8>,
    pub stderr: Seq<u8>,
}

impl View for ProcessOutput {
    type V = ProcessOutputView;

    open spec fn view(&self) -> ProcessOutputView {
        ProcessOutputView { exit_code: self.exit_code, stdout: self.stdout@, stderr: self.stderr@ }
    }
}

/// One record of the audit log: a command that was run for a rule, and how it ended.
/// The store adds the time at which it takes the record in.
#[derive(Debug)]
pub struct ExecutionLogEntry {
    pub webhook_name: String,
    pub executed_command: String,
    pub exit_code: i32,
    pub stdout: String,
    pub stderr: String,
}

/// A record as specifications see it.
pub struct ExecutionLogEntryView {
    pub webhook_name: Seq<char>,
    pub executed_command: Seq<char>,
    pub exit_code: i32,
    pub stdout: Seq<char>,
    pub stderr: Seq<char>,
}

impl View for ExecutionLogEntry {
    type V = ExecutionLogEntryView;

    open spec fn view(&self) -> ExecutionLogEntryView {
        ExecutionLogEntryView {
            webhook_name: self.webhook_name@,
            executed_command: self.executed_command@,
            exit_code: self.exit_code,
            stdout: self.stdout@,
            stderr: self.stderr@,
        }
    }
}

impl Clone for ExecutionLogEntry {
    fn clone(&self) -> (copy: Self)
        ensures
            copy@ == self@,
    {
        ExecutionLogEntry {
            webhook_name: self.webhook_name.clone(),
            executed_command: self.executed_command.clone(),
            exit_code: self.exit_code,
            stdout: self.stdout.clone(),
            stderr: self.stderr.clone(),
        }
    }
}

/// What is recorded of an output stream: its bytes read as UTF-8, with U+FFFD where they
/// are none, and without the whitespace at either end.
pub open spec fn captured(raw: Seq<u8>) -> Seq<char> {
    trimmed(lossy_text(raw))
}

/// Turns the bytes of an output stream into the text that is recorded of it.
pub fn capture_text(raw: &[u8]) -> (text: String)
    ensures
        text@ == captured(raw@),
{
    let decoded = utf8_lossy(raw);
    trim(decoded.as_str()).to_owned()
}

/// The record of a run of the rule's command that ended with `exit_code` and left the
/// texts `stdout` and `stderr`.
pub open spec fn entry_of(
    rule: WebhookView,
    exit_code: i32,
    stdout: Seq<char>,
    stderr: Seq<char>,
) -> ExecutionLogEntryView {
    ExecutionLogEntryView {
        webhook_name: rule.name,
        executed_command: rule.actions_to_execute,
        exit_code,
        stdout,
        stderr,
    }
}

/// The record of a run of the rule's command that left `output`.
pub open spec fn entry_for(rule: WebhookView, output: ProcessOutputView) -> ExecutionLogEntryView {
    entry_of(rule, output.exit_code, captured(output.stdout), captured(output.stderr))
}

impl ExecutionLogEntry {
    /// Makes the record of one run of the rule's command from what the run left, the
    /// output streams already as texts.
    pub fn new(rule: &Webhook, exit_code: i32, stdout: String, stderr: String) -> (entry: Self)
        ensures
            entry@ == entry_of(rule@, exit_code, stdout@, stderr@),
    {
        ExecutionLogEntry {
            webhook_name: rule.name.clone(),
            executed_command: rule.actions_to_execute.clone(),
            exit_code,
            stdout,
            stderr,
        }
    }

    /// Makes the record of one run of the rule's command from the output of the process.
    pub fn from_output(rule: &Webhook, output: &ProcessOutput) -> (entry: Self)
        ensures
            entry@ == entry_for(rule@, output@),
    {
        let stdout = capture_text(output.stdout.as_slice());
        let stderr = capture_text(output.stderr.as_slice());
        ExecutionLogEntry::new(rule, output.exit_code, stdout, stderr)
    }
}

/// How the run of a batch ended.
#[derive(Debug, Clone, Copy, PartialEq, Eq, Structural)]
pub enum BatchOutcome {
    /// Every command of the batch was run.
    Completed,
    /// The command of the rule at `position` could not be started. It was not recorded,
    /// and the rules after it were not run.
    Abandoned { position: usize },
}

/// What the worker is to do next.
#[derive(Debug)]
pub enum WorkerStep {
    /// Start this command, wait until it exits, and report what it left.
    Run(CommandLine),
    /// Append this record to the audit log, and report whether that worked.
    Record(ExecutionLogEntry),
    /// Go back to the queue: the batch is done with.
    Done(BatchOutcome),
}

/// A step as specifications see it.
pub enum WorkerStepView {
    Run(CommandLineView),
    Record(ExecutionLogEntryView),
    Done(BatchOutcome),
}

impl View for WorkerStep {
    type V = WorkerStepView;

    open spec fn view(&self) -> WorkerStepView {
        match self {
            WorkerStep::Run(command) => WorkerStepView::Run(command@),
            WorkerStep::Record(entry) => WorkerStepView::Record(entry@),
            WorkerStep::Done(outcome) => WorkerStepView::Done(*outcome),
        }
    }
}

/// What the worker reports of the step it was given.
#[derive(Debug)]
pub enum WorkerEvent {
    /// The command could not be started.
    SpawnFailed,
    /// The command ran and exited.
    Exited(ProcessOutput),
    /// The record is in the audit log.
    Recorded,
    /// The audit log did not take the record. The record is lost.
    RecordFailed,
}

/// An event as specifications see it.
pub enum WorkerEventView {
    SpawnFailed,
    Exited(ProcessOutputView),
    Recorded,
    RecordFailed,
}

impl View for WorkerEvent {
    type V = WorkerEventView;

    open spec fn view(&self) -> WorkerEventView {
        match self {
            WorkerEvent::SpawnFailed => WorkerEventView::SpawnFailed,
            WorkerEvent::Exited(output) => WorkerEventView::Exited(output@),
            WorkerEvent::Recorded => WorkerEventView::Recorded,
            WorkerEvent::RecordFailed => WorkerEventView::RecordFailed,
        }
    }
}

/// Where the run of a batch stands.
pub enum RunState {
    /// The command of the rule at `position` is to be run, or is running.
    Running { position: nat },
    /// The command of the rule at `position` has exited and `entry` is to be recorded.
    Recording { position: nat, entry: ExecutionLogEntryView },
    /// Every command was run.
    Completed,
    /// The command of the rule at `position` could not be started.
    Abandoned { position: nat },
}

/// The state in which the rule at `position` is next: completed where there is no such
/// rule, abandoned where its command line holds no program, else running it.
pub open spec fn settle(rules: Seq<WebhookView>, position: nat) -> RunState {
    if position >= rules.len() {
        RunState::Completed
    } else if command_of(rules[position as int].actions_to_execute).is_none() {
        RunState::Abandoned { position }
    } else {
        RunState::Running { position }
    }
}

/// The state after the worker's report. A command that cannot be started ends the
/// batch. A command that exited has its record made. Whether the record was taken or
/// lost, the next rule is next. A report that does not answer the pending step changes
/// nothing.
pub open spec fn after(rules: Seq<WebhookView>, state: RunState, event: WorkerEventView) -> RunState {
    match (state, event) {
        (RunState::Running { position }, WorkerEventView::SpawnFailed) => RunState::Abandoned {
            position,
        },
        (RunState::Running { position }, WorkerEventView::Exited(output)) => RunState::Recording {
            position,
            entry: entry_for(rules[position as int], output),
        },
        (RunState::Recording { position, .. }, WorkerEventView::Recorded) => settle(
            rules,
            position + 1,
        ),
        (RunState::Recording { position, .. }, WorkerEventView::RecordFailed) => settle(
            rules,
            position + 1,
        ),
        _ => state,
    }
}

/// The step that is pending in a state.
pub open spec fn pending_step(rules: Seq<WebhookView>, state: RunState) -> WorkerStepView {
    match state {
        RunState::Running { position } => WorkerStepView::Run(
            command_of(rules[position as int].actions_to_execute).unwrap(),
        ),
        RunState::Recording { entry, .. } => WorkerStepView::Record(entry),
        RunState::Completed => WorkerStepView::Done(BatchOutcome::Completed),
        RunState::Abandoned { position } => WorkerStepView::Done(
            BatchOutcome::Abandoned { position: position as usize },
        ),
    }
}

/// The state speaks of a rule of the batch, and of one with a program where it runs it.
pub open spec fn state_fits(rules: Seq<WebhookView>, state: RunState) -> bool {
    match state {
        RunState::Running { position } => position < rules.len() && command_of(
            rules[position as int].actions_to_execute,
        ).is_some(),
        RunState::Recording { position, .. } => position < rules.len(),
        RunState::Completed => true,
        RunState::Abandoned { position } => position < rules.len(),
    }
}

/// Every report leaves a state that fits the batch.
pub proof fn lemma_after_fits(rules: Seq<WebhookView>, state: RunState, event: WorkerEventView)
    requires
        state_fits(rules, state),
    ensures
        state_fits(rules, after(rules, state, event)),
{
}

/// A record that the audit log did not take holds the batch up no more than one that it
/// took.
pub proof fn lemma_lost_record_does_not_stop_the_batch(rules: Seq<WebhookView>, state: RunState)
    ensures
        after(rules, state, WorkerEventView::RecordFailed) == after(
            rules,
            state,
            WorkerEventView::Recorded,
        ),
{
}

enum Stage {
    Running,
    Recording(ExecutionLogEntry),
    Completed,
    Abandoned,
}

/// The run of one batch: its rules, in their order, and how far the worker has come.
pub struct BatchRun {
    rules: Vec<Webhook>,
    position: usize,
    stage: Stage,
}

impl BatchRun {
    /// The rules of the batch.
    pub closed spec fn rules(&self) -> Seq<WebhookView> {
        webhook_views(self.rules@)
    }

    /// Where the run stands.
    pub closed spec fn state(&self) -> RunState {
        match self.stage {
            Stage::Running => RunState::Running { position: self.position as nat },
            Stage::Recording(entry) => RunState::Recording {
                position: self.position as nat,
                entry: entry@,
            },
            Stage::Completed => RunState::Completed,
            Stage::Abandoned => RunState::Abandoned { position: self.position as nat },
        }
    }

    #[verifier::type_invariant]
    spec fn fits(self) -> bool {
        state_fits(self.rules(), self.state())
    }

    /// Takes a batch over. The first rule is next.
    pub fn new(batch: Vec<Webhook>) -> (run: Self)
        ensures
            run.rules() == webhook_views(batch@),
            run.state() == settle(webhook_views(batch@), 0),
    {
        let stage = BatchRun::stage_at(&batch, 0);
        BatchRun { rules: batch, position: 0, stage }
    }

    fn stage_at(rules: &Vec<Webhook>, position: usize) -> (stage: Stage)
        ensures
            match settle(webhook_views(rules@), position as nat) {
                RunState::Running { .. } => stage is Running,
                RunState::Recording { .. } => false,
                RunState::Completed => stage is Completed,
                RunState::Abandoned { .. } => stage is Abandoned,
            },
    {
        if position >= rules.len() {
            Stage::Completed
        } else {
            assert(webhook_views(rules@)[position as int] == rules[position as int]@);
            match parse_command_line(rules[position].actions_to_execute.as_str()) {
                Some(_) => Stage::Running,
                None => Stage::Abandoned,
            }
        }
    }

    /// The step that the worker is to take now.
    pub fn pending(&self) -> (step: WorkerStep)
        ensures
            step@ == pending_step(self.rules(), self.state()),
            state_fits(self.rules(), self.state()),
    {
        proof {
            use_type_invariant(self);
        }
        match &self.stage {
            Stage::Running => {
                assert(webhook_views(self.rules@)[self.position as int]
                    == self.rules[self.position as int]@);
                match parse_command_line(self.rules[self.position].actions_to_execute.as_str()) {
                    Some(command) => WorkerStep::Run(command),
                    None => WorkerStep::Done(BatchOutcome::Abandoned { position: self.position }),
                }
            },
            Stage::Recording(entry) => WorkerStep::Record(entry.clone()),
            Stage::Completed => WorkerStep::Done(BatchOutcome::Completed),
            Stage::Abandoned => WorkerStep::Done(BatchOutcome::Abandoned { position: self.position }),
        }
    }

    /// Takes the worker's report of the pending step in, and moves on.
    pub fn report(&mut self, event: WorkerEvent)
        ensures
            final(self).rules() == old(self).rules(),
            final(self).state() == after(old(self).rules(), old(self).state(), event@),
    {
        proof {
            use_type_invariant(&*self);
        }
        let running = match &self.stage {
            Stage::Running => true,
            _ => false,
        };
        let recording = match &self.stage {
            Stage::Recording(_) => true,
            _ => false,
        };
        match event {
            WorkerEvent::SpawnFailed => {
                if running {
                    self.stage = Stage::Abandoned;
                }
            },
            WorkerEvent::Exited(output) => {
                if running {
                    assert(webhook_views(self.rules@)[self.position as int]
                        == self.rules[self.position as int]@);
                    let entry = ExecutionLogEntry::from_output(&self.rules[self.position], &output);
                    self.stage = Stage::Recording(entry);
                }
            },
            WorkerEvent::Recorded | WorkerEvent::RecordFailed => {
                if recording {
                    let count = self.rules.len();
                    assert(self.position < count);
                    let next = self.position + 1;
                    let stage = BatchRun::stage_at(&self.rules, next);
                    self.stage = Stage::Completed;
                    self.position = next;
                    self.stage = stage;
                }
            },
        }
    }
}

} // verus!
