//! Abstract syntax tree of the shell language, with its mathematical model.
//!
//! Each executable node type has a model type (suffix `M`) in which strings
//! are character sequences and vectors are sequences, and a `..._dv` spec
//! function mapping the node to its model.  Parser and evaluator contracts
//! are stated over the models.

use std::rc::Rc;
use vstd::prelude::*;

verus! {

broadcast use {vstd::std_specs::vec::group_vec_axioms, vstd::seq::group_seq_axioms};

/// One fragment of a command word.
#[derive(Debug, PartialEq)]
pub enum Argument {
    /// Literal text (a bareword or a quoted span).
    Name(String),
    /// A `$name` variable reference.
    Variable(VariableLookup),
    /// A command substitution: the source text of the subshell.
    SubShell(SubShellExpr),
    /// Two fragments that touched with no separator.
    Merge(MergeExpr),
    /// A `${...}` parameter-expansion form.
    Expansion(ExpansionExpr),
}

/// A variable reference by name.
#[derive(Debug, PartialEq)]
pub struct VariableLookup {
    pub name: String,
}

/// The source text of a command substitution (`` `cmd` `` or `$(cmd)`).
#[derive(Debug, PartialEq)]
pub struct SubShellExpr {
    pub shell: String,
}

/// Adjacent-fragment string splicing, evaluated left then right.
#[derive(Debug, PartialEq)]
pub struct MergeExpr {
    pub left: Box<Argument>,
    pub right: Box<Argument>,
}

/// The `${...}` parameter-expansion forms.
#[derive(Debug, PartialEq)]
pub enum ExpansionExpr {
    /// `${name}`: plain expansion.
    ParameterExpansion(String),
    /// `${#name}`: length of the variable's value.
    StringLengthExpansion(String),
    /// `${name:-default}`: the default when unset or empty, without mutation.
    ParameterSubstitute(String, String),
    /// `${name:=default}`: the default when unset or empty, assigning it.
    ParameterAssign(String, String),
    /// `${name:?message}`: fatal error when unset or empty.
    ParameterError(String, String),
}

/// An environment-variable assignment prefix, `key=value`.
#[derive(Debug, PartialEq)]
pub struct AssignmentExpr {
    pub key: String,
    pub val: Argument,
}

/// A simple command: name, arguments and an optional assignment prefix.
#[derive(Debug, PartialEq)]
pub struct CommandExpr {
    pub command: Argument,
    pub arguments: Vec<Argument>,
    pub assignment: Option<AssignmentExpr>,
}

/// The direction of a file redirect.
#[derive(Clone, Copy, Debug, PartialEq, Eq, Structural)]
pub enum RedirectType {
    Out,
    OutAppend,
    In,
}

/// A single file redirect attached to a pipeline.
#[derive(Debug, PartialEq)]
pub struct RedirectExpr {
    pub file: Argument,
    pub mode: RedirectType,
    pub file_descriptor: u32,
}

/// A pipeline: stages connected stdout-to-stdin, a capture flag, an optional
/// file redirect, and a background flag.
#[derive(Debug, PartialEq)]
pub struct PipeLineExpr {
    pub pipeline: Vec<CompoundList>,
    pub capture_out: bool,
    pub file_redirect: Option<RedirectExpr>,
    pub background: bool,
}

/// One stage of a pipeline.
#[derive(Debug, PartialEq)]
pub enum CompoundList {
    Ifexpr(IfExpr),
    Whileexpr(WhileExpr),
    Forexpr(ForExpr),
    Commandexpr(CommandExpr),
    Functionexpr(FunctionExpr),
}

/// The `elif`/`else` continuation of an `if`.
#[derive(Debug, PartialEq)]
pub enum IfBranch {
    Elif(Box<IfExpr>),
    Else(Vec<PipeLineExpr>),
}

/// An `if`/`elif`/`else` construct; an `elif` chain is a right-nested `If` in
/// the `else` slot.
#[derive(Debug, PartialEq)]
pub struct IfExpr {
    pub condition: PipeLineExpr,
    pub if_branch: Vec<PipeLineExpr>,
    pub else_branch: Option<IfBranch>,
}

/// A `while` (or, with the condition negated, `until`) loop.
#[derive(Debug, PartialEq)]
pub struct WhileExpr {
    pub condition: AndOrNode,
    pub body: Vec<PipeLineExpr>,
}

/// A `for name in items; do ... done` loop.
#[derive(Debug, PartialEq)]
pub struct ForExpr {
    pub name: String,
    pub list: Vec<Argument>,
    pub commands: Vec<PipeLineExpr>,
}

/// A function definition; the body is shared so that installing it in the
/// function table needs no deep copy.
#[derive(Debug, PartialEq)]
pub struct FunctionExpr {
    pub fname: String,
    pub commands: Rc<Vec<PipeLineExpr>>,
}

/// Negation of a condition's exit status.
#[derive(Debug, PartialEq)]
pub struct NotExpr {
    pub condition: AndOrNode,
}

/// Left side and right side of `&&`.
#[derive(Debug, PartialEq)]
pub struct AndIf {
    pub left: AndOrNode,
    pub right: AndOrNode,
}

/// Left side and right side of `||`.
#[derive(Debug, PartialEq)]
pub struct OrIf {
    pub left: AndOrNode,
    pub right: AndOrNode,
}

/// A chain of pipelines combined with `&&`, `||` and `!`.
#[derive(Debug, PartialEq)]
pub enum AndOrNode {
    Pipeline(Box<PipeLineExpr>),
    Andif(Box<AndIf>),
    Orif(Box<OrIf>),
    Notif(Box<NotExpr>),
}

// ---------------------------------------------------------------------------
// Model types.
// ---------------------------------------------------------------------------

/// Model of an [`Argument`].
pub enum ArgM {
    Name(Seq<char>),
    Variable(Seq<char>),
    SubShell(Seq<char>),
    Merge(Box<ArgM>, Box<ArgM>),
    Expansion(ExpM),
}

/// Model of an [`ExpansionExpr`].
pub enum ExpM {
    Plain(Seq<char>),
    Length(Seq<char>),
    Substitute(Seq<char>, Seq<char>),
    Assign(Seq<char>, Seq<char>),
    ErrorOn(Seq<char>, Seq<char>),
}

/// Model of an [`AssignmentExpr`].
pub struct AssignM {
    pub key: Seq<char>,
    pub val: ArgM,
}

/// Model of a [`CommandExpr`].
pub struct CommandM {
    pub command: ArgM,
    pub arguments: Seq<ArgM>,
    pub assignment: Option<AssignM>,
}

/// Model of a [`RedirectExpr`].
pub struct RedirectM {
    pub file: ArgM,
    pub mode: RedirectType,
    pub file_descriptor: u32,
}

/// Model of a [`PipeLineExpr`].
pub struct PipelineM {
    pub pipeline: Seq<CompoundM>,
    pub capture_out: bool,
    pub file_redirect: Option<RedirectM>,
    pub background: bool,
}

/// Model of a [`CompoundList`].
pub enum CompoundM {
    If(IfM),
    While(WhileM),
    For(ForM),
    Cmd(CommandM),
    Func(FuncM),
}

/// Model of an [`IfBranch`].
pub enum IfBranchM {
    Elif(Box<IfM>),
    Else(Seq<PipelineM>),
}

/// Model of an [`IfExpr`].
pub struct IfM {
    pub condition: PipelineM,
    pub if_branch: Seq<PipelineM>,
    pub else_branch: Option<IfBranchM>,
}

/// Model of a [`WhileExpr`].
pub struct WhileM {
    pub condition: AndOrM,
    pub body: Seq<PipelineM>,
}

/// Model of a [`ForExpr`].
pub struct ForM {
    pub name: Seq<char>,
    pub list: Seq<ArgM>,
    pub commands: Seq<PipelineM>,
}

/// Model of a [`FunctionExpr`].
pub struct FuncM {
    pub fname: Seq<char>,
    pub commands: Seq<PipelineM>,
}

/// Model of an [`AndOrNode`].
pub enum AndOrM {
    Pipeline(Box<PipelineM>),
    Andif(Box<AndOrM>, Box<AndOrM>),
    Orif(Box<AndOrM>, Box<AndOrM>),
    Notif(Box<AndOrM>),
}

// ---------------------------------------------------------------------------
// Deep views.
// ---------------------------------------------------------------------------

/// Model of an [`ExpansionExpr`].
pub open spec fn expansion_dv(e: ExpansionExpr) -> ExpM {
    match e {
        ExpansionExpr::ParameterExpansion(n) => ExpM::Plain(n@),
        ExpansionExpr::StringLengthExpansion(n) => ExpM::Length(n@),
        ExpansionExpr::ParameterSubstitute(n, d) => ExpM::Substitute(n@, d@),
        ExpansionExpr::ParameterAssign(n, d) => ExpM::Assign(n@, d@),
        ExpansionExpr::ParameterError(n, d) => ExpM::ErrorOn(n@, d@),
    }
}

/// Model of an [`Argument`].
pub open spec fn arg_dv(a: Argument) -> ArgM
    decreases a,
{
    match a {
        Argument::Name(s) => ArgM::Name(s@),
        Argument::Variable(v) => ArgM::Variable(v.name@),
        Argument::SubShell(s) => ArgM::SubShell(s.shell@),
        Argument::Merge(m) => ArgM::Merge(Box::new(arg_dv(*m.left)), Box::new(arg_dv(*m.right))),
        Argument::Expansion(e) => ArgM::Expansion(expansion_dv(e)),
    }
}

/// Model of a sequence of [`Argument`]s.
pub open spec fn args_dv(s: Seq<Argument>) -> Seq<ArgM> {
    s.map_values(|a: Argument| arg_dv(a))
}

/// Model of an [`AssignmentExpr`].
pub open spec fn assignment_dv(a: AssignmentExpr) -> AssignM {
    AssignM { key: a.key@, val: arg_dv(a.val) }
}

/// Model of a [`CommandExpr`].
pub open spec fn command_dv(c: CommandExpr) -> CommandM {
    CommandM {
        command: arg_dv(c.command),
        arguments: args_dv(c.arguments@),
        assignment: match c.assignment {
            Some(a) => Some(assignment_dv(a)),
            None => None,
        },
    }
}

/// Model of a [`RedirectExpr`].
pub open spec fn redirect_dv(r: RedirectExpr) -> RedirectM {
    RedirectM { file: arg_dv(r.file), mode: r.mode, file_descriptor: r.file_descriptor }
}

/// Model of a [`PipeLineExpr`].
pub open spec fn pipeline_dv(p: PipeLineExpr) -> PipelineM
    decreases p,
{
    PipelineM {
        pipeline: compounds_dv(p.pipeline@),
        capture_out: p.capture_out,
        file_redirect: match p.file_redirect {
            Some(r) => Some(redirect_dv(r)),
            None => None,
        },
        background: p.background,
    }
}

/// Model of a sequence of pipeline stages.
pub open spec fn compounds_dv(s: Seq<CompoundList>) -> Seq<CompoundM>
    decreases s,
{
    if s.len() == 0 {
        Seq::empty()
    } else {
        compounds_dv(s.drop_last()).push(compound_dv(s.last()))
    }
}

/// Model of a [`CompoundList`].
pub open spec fn compound_dv(c: CompoundList) -> CompoundM
    decreases c,
{
    match c {
        CompoundList::Ifexpr(e) => CompoundM::If(if_dv(e)),
        CompoundList::Whileexpr(e) => CompoundM::While(while_dv(e)),
        CompoundList::Forexpr(e) => CompoundM::For(for_dv(e)),
        CompoundList::Commandexpr(e) => CompoundM::Cmd(command_dv(e)),
        CompoundList::Functionexpr(e) => CompoundM::Func(func_dv(e)),
    }
}

/// Model of a sequence of pipelines.
pub open spec fn pipelines_dv(s: Seq<PipeLineExpr>) -> Seq<PipelineM>
    decreases s,
{
    if s.len() == 0 {
        Seq::empty()
    } else {
        pipelines_dv(s.drop_last()).push(pipeline_dv(s.last()))
    }
}

/// Model of an [`IfExpr`].
pub open spec fn if_dv(e: IfExpr) -> IfM
    decreases e,
{
    IfM {
        condition: pipeline_dv(e.condition),
        if_branch: pipelines_dv(e.if_branch@),
        else_branch: match e.else_branch {
            Some(IfBranch::Elif(b)) => Some(IfBranchM::Elif(Box::new(if_dv(*b)))),
            Some(IfBranch::Else(v)) => Some(IfBranchM::Else(pipelines_dv(v@))),
            None => None,
        },
    }
}

/// Model of a [`WhileExpr`].
pub open spec fn while_dv(e: WhileExpr) -> WhileM
    decreases e,
{
    WhileM { condition: andor_dv(e.condition), body: pipelines_dv(e.body@) }
}

/// Model of a [`ForExpr`].
pub open spec fn for_dv(e: ForExpr) -> ForM
    decreases e,
{
    ForM { name: e.name@, list: args_dv(e.list@), commands: pipelines_dv(e.commands@) }
}

/// Model of a [`FunctionExpr`].
pub open spec fn func_dv(e: FunctionExpr) -> FuncM
    decreases e,
{
    FuncM { fname: e.fname@, commands: pipelines_dv((*e.commands)@) }
}

/// Model of an [`AndOrNode`].
pub open spec fn andor_dv(n: AndOrNode) -> AndOrM
    decreases n,
{
    match n {
        AndOrNode::Pipeline(p) => AndOrM::Pipeline(Box::new(pipeline_dv(*p))),
        AndOrNode::Andif(a) => AndOrM::Andif(
            Box::new(andor_dv(a.left)),
            Box::new(andor_dv(a.right)),
        ),
        AndOrNode::Orif(o) => AndOrM::Orif(
            Box::new(andor_dv(o.left)),
            Box::new(andor_dv(o.right)),
        ),
        AndOrNode::Notif(e) => AndOrM::Notif(Box::new(andor_dv(e.condition))),
    }
}

/// Model of a sequence of statements.
pub open spec fn andors_dv(s: Seq<AndOrNode>) -> Seq<AndOrM> {
    s.map_values(|n: AndOrNode| andor_dv(n))
}

impl DeepView for Argument {
    type V = ArgM;

    open spec fn deep_view(&self) -> ArgM {
        arg_dv(*self)
    }
}

impl DeepView for ExpansionExpr {
    type V = ExpM;

    open spec fn deep_view(&self) -> ExpM {
        expansion_dv(*self)
    }
}

impl DeepView for AssignmentExpr {
    type V = AssignM;

    open spec fn deep_view(&self) -> AssignM {
        assignment_dv(*self)
    }
}

impl DeepView for CommandExpr {
    type V = CommandM;

    open spec fn deep_view(&self) -> CommandM {
        command_dv(*self)
    }
}

impl DeepView for RedirectExpr {
    type V = RedirectM;

    open spec fn deep_view(&self) -> RedirectM {
        redirect_dv(*self)
    }
}

impl DeepView for PipeLineExpr {
    type V = PipelineM;

    open spec fn deep_view(&self) -> PipelineM {
        pipeline_dv(*self)
    }
}

impl DeepView for CompoundList {
    type V = CompoundM;

    open spec fn deep_view(&self) -> CompoundM {
        compound_dv(*self)
    }
}

impl DeepView for IfExpr {
    type V = IfM;

    open spec fn deep_view(&self) -> IfM {
        if_dv(*self)
    }
}

impl DeepView for WhileExpr {
    type V = WhileM;

    open spec fn deep_view(&self) -> WhileM {
        while_dv(*self)
    }
}

impl DeepView for ForExpr {
    type V = ForM;

    open spec fn deep_view(&self) -> ForM {
        for_dv(*self)
    }
}

impl DeepView for FunctionExpr {
    type V = FuncM;

    open spec fn deep_view(&self) -> FuncM {
        func_dv(*self)
    }
}

impl DeepView for AndOrNode {
    type V = AndOrM;

    open spec fn deep_view(&self) -> AndOrM {
        andor_dv(*self)
    }
}

/// The model of a stage list is the stage-wise model.
pub broadcast proof fn lemma_compounds_dv(s: Seq<CompoundList>)
    ensures
        (#[trigger] compounds_dv(s)).len() == s.len(),
        forall|i: int| 0 <= i < s.len() ==> compounds_dv(s)[i] == compound_dv(s[i]),
    decreases s.len(),
{
    if s.len() > 0 {
        lemma_compounds_dv(s.drop_last());
    }
}

/// The model of a pipeline list is the pipeline-wise model.
pub broadcast proof fn lemma_pipelines_dv(s: Seq<PipeLineExpr>)
    ensures
        (#[trigger] pipelines_dv(s)).len() == s.len(),
        forall|i: int| 0 <= i < s.len() ==> pipelines_dv(s)[i] == pipeline_dv(s[i]),
    decreases s.len(),
{
    if s.len() > 0 {
        lemma_pipelines_dv(s.drop_last());
    }
}

// ---------------------------------------------------------------------------
// Shell state and job bookkeeping.
// ---------------------------------------------------------------------------

/// The argv of a spawned command, kept for the job listing.
#[derive(Debug, PartialEq)]
pub struct CommandStr {
    pub parts: Vec<String>,
}

/// Model of a [`CommandStr`]: the argv as character sequences.
pub open spec fn commandstr_dv(c: CommandStr) -> Seq<Seq<char>> {
    c.parts.deep_view()
}

/// A tracked spawned process: its pid and the command line it runs.  The
/// live process handle itself is owned by the embedding program, keyed by
/// the pid.
#[derive(Debug, PartialEq)]
pub struct Job {
    pub pid: u32,
    pub cmd: CommandStr,
}

/// Model of a [`Job`].
pub struct JobM {
    pub pid: u32,
    pub cmd: Seq<Seq<char>>,
}

impl DeepView for Job {
    type V = JobM;

    open spec fn deep_view(&self) -> JobM {
        JobM { pid: self.pid, cmd: commandstr_dv(self.cmd) }
    }
}

/// The built-in commands.
#[derive(Clone, Copy, Debug, PartialEq, Eq, Structural)]
pub enum BuiltIn {
    Cd,
    Jobs,
    True,
    False,
    Astview,
    Help,
    Exit,
}

/// The per-interpreter mutable store: job lists, the last exit status, the
/// user function table and the positional-argument stack.
pub struct State {
    pub fg_jobs: Vec<Job>,
    pub bg_jobs: Vec<Job>,
    pub prev_status: i32,
    pub functions: Vec<(String, Rc<Vec<PipeLineExpr>>)>,
    pub argstack: Vec<Vec<String>>,
}

/// Model of a [`State`].
pub struct StateM {
    pub fg_jobs: Seq<JobM>,
    pub bg_jobs: Seq<JobM>,
    pub prev_status: int,
    pub functions: Seq<(Seq<char>, Seq<PipelineM>)>,
    pub argstack: Seq<Seq<Seq<char>>>,
}

/// Model of the function table.
pub open spec fn functions_dv(fns: Seq<(String, Rc<Vec<PipeLineExpr>>)>) -> Seq<(
    Seq<char>,
    Seq<PipelineM>,
)>
    decreases fns,
{
    if fns.len() == 0 {
        Seq::empty()
    } else {
        functions_dv(fns.drop_last()).push(
            (fns.last().0@, pipelines_dv((*fns.last().1)@)),
        )
    }
}

/// The function-table model is the entry-wise model.
pub broadcast proof fn lemma_functions_dv(fns: Seq<(String, Rc<Vec<PipeLineExpr>>)>)
    ensures
        (#[trigger] functions_dv(fns)).len() == fns.len(),
        forall|i: int|
            0 <= i < fns.len() ==> functions_dv(fns)[i] == (
                fns[i].0@,
                pipelines_dv((*fns[i].1)@),
            ),
    decreases fns.len(),
{
    if fns.len() > 0 {
        lemma_functions_dv(fns.drop_last());
    }
}

impl State {
    /// Model of this state.
    pub open spec fn view(&self) -> StateM {
        StateM {
            fg_jobs: self.fg_jobs.deep_view(),
            bg_jobs: self.bg_jobs.deep_view(),
            prev_status: self.prev_status as int,
            functions: functions_dv(self.functions@),
            argstack: self.argstack.deep_view(),
        }
    }

    /// A fresh state: no jobs, no functions, no positional arguments, and a
    /// last exit status of zero.
    pub fn new() -> (st: State)
        ensures
            st.view().fg_jobs == Seq::<JobM>::empty(),
            st.view().bg_jobs == Seq::<JobM>::empty(),
            st.view().prev_status == 0,
            st.view().functions == Seq::<(Seq<char>, Seq<PipelineM>)>::empty(),
            st.view().argstack == Seq::<Seq<Seq<char>>>::empty(),
    {
        let st = State {
            fg_jobs: Vec::new(),
            bg_jobs: Vec::new(),
            prev_status: 0,
            functions: Vec::new(),
            argstack: Vec::new(),
        };
        proof {
            assert(st.fg_jobs.deep_view() =~= Seq::<JobM>::empty());
            assert(st.bg_jobs.deep_view() =~= Seq::<JobM>::empty());
            assert(st.argstack.deep_view() =~= Seq::<Seq<Seq<char>>>::empty());
        }
        st
    }
}

/// Records a freshly spawned process in the foreground or background job
/// list, by the pipeline's background flag.
pub fn push_job(state: &mut State, job: Job, background: bool)
    ensures
        background ==> final(state).view().bg_jobs == old(state).view().bg_jobs.push(
            job.deep_view(),
        ) && final(state).view().fg_jobs == old(state).view().fg_jobs,
        !background ==> final(state).view().fg_jobs == old(state).view().fg_jobs.push(
            job.deep_view(),
        ) && final(state).view().bg_jobs == old(state).view().bg_jobs,
        final(state).view().prev_status == old(state).view().prev_status,
        final(state).view().functions == old(state).view().functions,
        final(state).view().argstack == old(state).view().argstack,
{
    let ghost jm = job.deep_view();
    if background {
        let ghost b0 = state.bg_jobs.deep_view();
        state.bg_jobs.push(job);
        proof {
            assert(state.bg_jobs.deep_view() =~= b0.push(jm));
        }
    } else {
        let ghost f0 = state.fg_jobs.deep_view();
        state.fg_jobs.push(job);
        proof {
            assert(state.fg_jobs.deep_view() =~= f0.push(jm));
        }
    }
}

/// Empties the foreground job list, as happens after every top-level
/// statement.
pub fn clear_fg(state: &mut State)
    ensures
        final(state).view().fg_jobs == Seq::<JobM>::empty(),
        final(state).view().bg_jobs == old(state).view().bg_jobs,
        final(state).view().prev_status == old(state).view().prev_status,
        final(state).view().functions == old(state).view().functions,
        final(state).view().argstack == old(state).view().argstack,
{
    state.fg_jobs = Vec::new();
    proof {
        assert(state.fg_jobs.deep_view() =~= Seq::<JobM>::empty());
    }
}

/// The jobs that remain after pruning: exactly those whose flag says they
/// have not exited, in their original order.
pub open spec fn s_retained(jobs: Seq<JobM>, exited: Seq<bool>) -> Seq<JobM>
    decreases jobs.len(),
{
    if jobs.len() == 0 {
        Seq::empty()
    } else {
        let rest = s_retained(jobs.drop_last(), exited.drop_last());
        if exited.len() >= 1 && exited.last() {
            rest
        } else {
            rest.push(jobs.last())
        }
    }
}

/// A job whose flag says it is still running survives the pruning.
pub proof fn lemma_prune_keeps_running(jobs: Seq<JobM>, exited: Seq<bool>, i: int)
    requires
        jobs.len() == exited.len(),
        0 <= i < jobs.len(),
        !exited[i],
    ensures
        s_retained(jobs, exited).contains(jobs[i]),
    decreases jobs.len(),
{
    if i == jobs.len() - 1 {
        let rest = s_retained(jobs.drop_last(), exited.drop_last());
        assert(s_retained(jobs, exited).last() == jobs[i]);
    } else {
        lemma_prune_keeps_running(jobs.drop_last(), exited.drop_last(), i);
        let rest = s_retained(jobs.drop_last(), exited.drop_last());
        let k = choose|k: int| 0 <= k < rest.len() && rest[k] == jobs.drop_last()[i];
        if exited.last() {
            assert(s_retained(jobs, exited)[k] == jobs[i]);
        } else {
            assert(s_retained(jobs, exited)[k] == jobs[i]);
        }
    }
}

/// Prunes the background job list against a liveness report: entry `i` of
/// `exited` says whether background job `i` has really exited, and only
/// those entries are removed.
pub fn prune_bg(state: &mut State, exited: &Vec<bool>)
    requires
        exited.len() == old(state).bg_jobs.len(),
    ensures
        final(state).view().bg_jobs == s_retained(old(state).view().bg_jobs, exited@),
        final(state).view().fg_jobs == old(state).view().fg_jobs,
        final(state).view().prev_status == old(state).view().prev_status,
        final(state).view().functions == old(state).view().functions,
        final(state).view().argstack == old(state).view().argstack,
{
    let n = state.bg_jobs.len();
    let mut kept: Vec<Job> = Vec::new();
    let mut i: usize = 0;
    proof {
        assert(kept.deep_view() =~= Seq::<JobM>::empty());
        assert(old(state).bg_jobs.deep_view().take(0) =~= Seq::<JobM>::empty());
        assert(exited@.take(0) =~= Seq::<bool>::empty());
        assert(s_retained(Seq::<JobM>::empty(), Seq::<bool>::empty()) =~= Seq::<JobM>::empty());
    }
    while i < n
        invariant
            i <= n,
            n == state.bg_jobs.len(),
            state.bg_jobs.deep_view() == old(state).bg_jobs.deep_view(),
            state.fg_jobs == old(state).fg_jobs,
            state.prev_status == old(state).prev_status,
            state.functions == old(state).functions,
            state.argstack == old(state).argstack,
            exited.len() == n,
            kept.deep_view() == s_retained(
                state.bg_jobs.deep_view().take(i as int),
                exited@.take(i as int),
            ),
        decreases n - i,
    {
        let ghost kd = kept.deep_view();
        if !exited[i] {
            let j = Job {
                pid: state.bg_jobs[i].pid,
                cmd: CommandStr { parts: clone_strings(&state.bg_jobs[i].cmd.parts) },
            };
            proof {
                assert(j.deep_view() == state.bg_jobs.deep_view()[i as int]);
            }
            kept.push(j);
            proof {
                assert(kept.deep_view() =~= kd.push(state.bg_jobs.deep_view()[i as int]));
            }
        }
        proof {
            let bj = state.bg_jobs.deep_view();
            assert(bj.take(i + 1).drop_last() =~= bj.take(i as int));
            assert(exited@.take(i + 1).drop_last() =~= exited@.take(i as int));
            assert(bj.take(i + 1).last() == bj[i as int]);
            assert(exited@.take(i + 1).last() == exited@[i as int]);
        }
        i += 1;
    }
    proof {
        assert(state.bg_jobs.deep_view().take(n as int) =~= state.bg_jobs.deep_view());
        assert(exited@.take(n as int) =~= exited@);
    }
    state.bg_jobs = kept;
}

/// Copies a vector of strings.
pub fn clone_strings(v: &Vec<String>) -> (r: Vec<String>)
    ensures
        r.deep_view() == v.deep_view(),
{
    let mut r: Vec<String> = Vec::new();
    let mut i: usize = 0;
    proof {
        assert(r.deep_view() =~~= v.deep_view().take(0));
    }
    while i < v.len()
        invariant
            i <= v.len(),
            r.deep_view() == v.deep_view().take(i as int),
        decreases v.len() - i,
    {
        let ghost r0 = r.deep_view();
        let element = v[i].clone();
        let ghost em = element@;
        proof {
            assert(em == v.deep_view()[i as int]);
        }
        r.push(element);
        proof {
            assert(r.deep_view() =~= r0.push(em));
            assert(r0.push(em) =~= v.deep_view().take(i + 1));
        }
        i += 1;
    }
    proof {
        assert(v.deep_view().take(v.len() as int) =~= v.deep_view());
    }
    r
}

// ---------------------------------------------------------------------------
// Variable resolution.
// ---------------------------------------------------------------------------

/// Positional arguments joined by single spaces.
pub open spec fn s_join_space(args: Seq<Seq<char>>) -> Seq<char>
    decreases args.len(),
{
    if args.len() == 0 {
        Seq::empty()
    } else if args.len() == 1 {
        args[0]
    } else {
        s_join_space(args.drop_last()) + seq![' '] + args.last()
    }
}

/// Joins strings with single spaces.
pub fn join_space(args: &Vec<String>) -> (r: String)
    ensures
        r@ == s_join_space(args.deep_view()),
{
    if args.len() == 0 {
        let r = String::new();
        proof {
            assert(r@ =~= Seq::<char>::empty());
        }
        return r;
    }
    let mut s = args[0].clone();
    let mut i: usize = 1;
    proof {
        assert(args.deep_view().take(1) =~= seq![args.deep_view()[0]]);
        assert(s@ == s_join_space(args.deep_view().take(1)));
    }
    while i < args.len()
        invariant
            1 <= i <= args.len(),
            s@ == s_join_space(args.deep_view().take(i as int)),
        decreases args.len() - i,
    {
        s.append(" ");
        s.append(args[i].as_str());
        proof {
            reveal_strlit(" ");
            assert(" "@ =~= seq![' ']);
            let dv = args.deep_view();
            assert(dv.take(i + 1).drop_last() =~= dv.take(i as int));
            assert(dv.take(i + 1).last() == dv[i as int]);
        }
        i += 1;
    }
    proof {
        assert(args.deep_view().take(args.len() as int) =~= args.deep_view());
    }
    s
}

/// An empty value is folded into "unset", as happens for every environment
/// lookup that feeds the default-taking expansion forms.
pub open spec fn s_collapse(v: Option<Seq<char>>) -> Option<Seq<char>> {
    match v {
        Some(x) => if x.len() == 0 {
            None
        } else {
            Some(x)
        },
        None => None,
    }
}

/// Deep view of a resolved optional value.
pub open spec fn opt_dv(v: Option<String>) -> Option<Seq<char>> {
    match v {
        Some(s) => Some(s@),
        None => None,
    }
}

/// Collapses an empty looked-up value to "unset".
pub fn collapse_empty(v: Option<String>) -> (r: Option<String>)
    ensures
        opt_dv(r) == s_collapse(opt_dv(v)),
{
    match v {
        Some(x) => {
            if x.as_str().unicode_len() == 0 {
                None
            } else {
                Some(x)
            }
        },
        None => None,
    }
}

/// The value of a special shell variable, `Some(..)` when `name` is special:
/// the interpreter's own name for `0`, the last background pid for `!`, the
/// last exit status for `?`, the interpreter's pid for `$`, the positional
/// arguments for `@`, `*`, `#` and numeric names.  `None` means the name is
/// an ordinary variable resolved in the environment.
pub open spec fn s_special_var(st: StateM, name: Seq<char>, pid: u32) -> Option<Option<Seq<char>>> {
    if name == "0"@ {
        Some(Some("slush"@))
    } else if name == "!"@ {
        Some(Some(if st.bg_jobs.len() > 0 {
            crate::digits::dec_rep(st.bg_jobs.last().pid as nat)
        } else {
            "0"@
        }))
    } else if name == "?"@ {
        Some(Some(crate::digits::int_rep(st.prev_status)))
    } else if name == "$"@ {
        Some(Some(crate::digits::dec_rep(pid as nat)))
    } else if name == "@"@ || name == "*"@ {
        Some(Some(if st.argstack.len() == 0 {
            Seq::empty()
        } else {
            s_join_space(st.argstack.last())
        }))
    } else if name == "#"@ {
        Some(Some(if st.argstack.len() == 0 {
            Seq::empty()
        } else {
            crate::digits::dec_rep(st.argstack.last().len())
        }))
    } else if crate::digits::is_udec(name) && crate::digits::udec_val(name) <= usize::MAX as nat {
        if st.argstack.len() == 0 {
            Some(None)
        } else {
            let n = crate::digits::udec_val(name);
            if 1 <= n && n <= st.argstack.last().len() {
                Some(Some(st.argstack.last()[n - 1]))
            } else {
                Some(Some(Seq::empty()))
            }
        }
    } else {
        None
    }
}

/// Deep view of a special-variable result.
pub open spec fn opt2_dv(v: Option<Option<String>>) -> Option<Option<Seq<char>>> {
    match v {
        Some(x) => Some(opt_dv(x)),
        None => None,
    }
}

/// Resolves the special shell variables from the state; `None` asks the
/// caller to look the name up in the environment instead.
pub fn resolve_special(state: &State, name: &str, pid: u32) -> (r: Option<Option<String>>)
    ensures
        opt2_dv(r) == s_special_var(state.view(), name@, pid),
{
    if crate::tokenizer::str_eq(name, "0") {
        Some(Some(String::from_str("slush")))
    } else if crate::tokenizer::str_eq(name, "!") {
        if state.bg_jobs.len() > 0 {
            let pid_of_last = state.bg_jobs[state.bg_jobs.len() - 1].pid;
            proof {
                assert(state.bg_jobs.deep_view().last() == state.bg_jobs[
                    state.bg_jobs.len() - 1
                ].deep_view());
            }
            Some(Some(crate::digits::u64_to_string(pid_of_last as u64)))
        } else {
            Some(Some(String::from_str("0")))
        }
    } else if crate::tokenizer::str_eq(name, "?") {
        Some(Some(crate::digits::i32_to_string(state.prev_status)))
    } else if crate::tokenizer::str_eq(name, "$") {
        Some(Some(crate::digits::u64_to_string(pid as u64)))
    } else if crate::tokenizer::str_eq(name, "@") || crate::tokenizer::str_eq(name, "*") {
        if state.argstack.len() == 0 {
            let r = String::new();
            proof {
                assert(r@ =~= Seq::<char>::empty());
            }
            Some(Some(r))
        } else {
            let top = &state.argstack[state.argstack.len() - 1];
            proof {
                assert(state.argstack.deep_view().last() == state.argstack[
                    state.argstack.len() - 1
                ].deep_view());
            }
            Some(Some(join_space(top)))
        }
    } else if crate::tokenizer::str_eq(name, "#") {
        if state.argstack.len() == 0 {
            let r = String::new();
            proof {
                assert(r@ =~= Seq::<char>::empty());
            }
            Some(Some(r))
        } else {
            let count = state.argstack[state.argstack.len() - 1].len();
            proof {
                assert(state.argstack.deep_view().last() == state.argstack[
                    state.argstack.len() - 1
                ].deep_view());
                assert(state.argstack.deep_view().last().len() == count as nat);
            }
            Some(Some(crate::digits::u64_to_string(count as u64)))
        }
    } else {
        match crate::digits::parse_u64_capped(name, usize::MAX as u64) {
            Some(nv) => {
                let n = nv as usize;
                if state.argstack.len() == 0 {
                    Some(None)
                } else {
                    let top = &state.argstack[state.argstack.len() - 1];
                    proof {
                        assert(state.argstack.deep_view().last() == state.argstack[
                            state.argstack.len() - 1
                        ].deep_view());
                    }
                    if 1 <= n && n <= top.len() {
                        proof {
                            assert(top.deep_view()[n - 1] == top[n as int - 1]@);
                        }
                        Some(Some(top[n - 1].clone()))
                    } else {
                        let r = String::new();
                        proof {
                            assert(r@ =~= Seq::<char>::empty());
                        }
                        Some(Some(r))
                    }
                }
            },
            None => None,
        }
    }
}

// ---------------------------------------------------------------------------
// Parameter expansion semantics.
// ---------------------------------------------------------------------------

/// What one `${...}` form does, given the variable's resolved value.
pub struct OutcomeM {
    pub value: Seq<char>,
    pub assign: Option<Seq<char>>,
    pub fatal: Option<Seq<char>>,
}

/// The executable counterpart of [`OutcomeM`].
pub struct ExpansionOutcome {
    pub value: String,
    pub assign: Option<String>,
    pub fatal: Option<String>,
}

/// Deep view of an [`ExpansionOutcome`].
pub open spec fn outcome_dv(r: ExpansionOutcome) -> OutcomeM {
    OutcomeM { value: r.value@, assign: opt_dv(r.assign), fatal: opt_dv(r.fatal) }
}

/// The variable name a `${...}` form reads.
pub open spec fn exp_name(e: ExpM) -> Seq<char> {
    match e {
        ExpM::Plain(n) => n,
        ExpM::Length(n) => n,
        ExpM::Substitute(n, d) => n,
        ExpM::Assign(n, d) => n,
        ExpM::ErrorOn(n, d) => n,
    }
}

/// The meaning of each `${...}` form: plain expansion yields the value or
/// nothing, length expansion its decimal length, the default forms take the
/// default exactly when the value is unset (the assigning form also records
/// the assignment), and the error form is fatal when the value is unset.
pub open spec fn s_expansion_outcome(e: ExpM, current: Option<Seq<char>>) -> OutcomeM {
    match e {
        ExpM::Plain(n) => OutcomeM {
            value: match current {
                Some(v) => v,
                None => Seq::empty(),
            },
            assign: None,
            fatal: None,
        },
        ExpM::Length(n) => OutcomeM {
            value: crate::digits::dec_rep(
                match current {
                    Some(v) => v.len(),
                    None => 0,
                },
            ),
            assign: None,
            fatal: None,
        },
        ExpM::Substitute(n, d) => OutcomeM {
            value: match current {
                Some(v) => v,
                None => d,
            },
            assign: None,
            fatal: None,
        },
        ExpM::Assign(n, d) => match current {
            Some(v) => OutcomeM { value: v, assign: None, fatal: None },
            None => OutcomeM { value: d, assign: Some(d), fatal: None },
        },
        ExpM::ErrorOn(n, m) => OutcomeM {
            value: Seq::empty(),
            assign: None,
            fatal: Some("slush: "@ + n + ": "@ + m),
        },
    }
}

/// Applies one `${...}` form to the resolved value of its variable.
pub fn expansion_outcome(e: &ExpansionExpr, current: Option<String>) -> (r: ExpansionOutcome)
    ensures
        outcome_dv(r) == s_expansion_outcome(expansion_dv(*e), opt_dv(current)),
{
    match e {
        ExpansionExpr::ParameterExpansion(_n) => {
            let value = match current {
                Some(v) => v,
                None => {
                    let s = String::new();
                    proof {
                        assert(s@ =~= Seq::<char>::empty());
                    }
                    s
                },
            };
            ExpansionOutcome { value: value, assign: None, fatal: None }
        },
        ExpansionExpr::StringLengthExpansion(_n) => {
            let len: usize = match &current {
                Some(v) => v.as_str().unicode_len(),
                None => 0,
            };
            ExpansionOutcome {
                value: crate::digits::u64_to_string(len as u64),
                assign: None,
                fatal: None,
            }
        },
        ExpansionExpr::ParameterSubstitute(_n, d) => {
            let value = match current {
                Some(v) => v,
                None => d.clone(),
            };
            ExpansionOutcome { value: value, assign: None, fatal: None }
        },
        ExpansionExpr::ParameterAssign(_n, d) => {
            match current {
                Some(v) => ExpansionOutcome { value: v, assign: None, fatal: None },
                None => ExpansionOutcome { value: d.clone(), assign: Some(d.clone()), fatal: None },
            }
        },
        ExpansionExpr::ParameterError(n, m) => {
            let mut msg = String::from_str("slush: ");
            msg.append(n.as_str());
            msg.append(": ");
            msg.append(m.as_str());
            let value = String::new();
            proof {
                assert(value@ =~= Seq::<char>::empty());
            }
            ExpansionOutcome { value: value, assign: None, fatal: Some(msg) }
        },
    }
}

/// The defaulting family of parameter expansions: `${x:-d}` yields the
/// value when one is set and the default otherwise, never assigning;
/// `${x:=d}` yields the same but records the assignment of the default
/// exactly when the value was unset.
pub proof fn lemma_default_family(name: Seq<char>, d: Seq<char>, v: Option<Seq<char>>)
    ensures
        s_expansion_outcome(ExpM::Substitute(name, d), v).value == (match v {
            Some(x) => x,
            None => d,
        }),
        s_expansion_outcome(ExpM::Substitute(name, d), v).assign is None,
        s_expansion_outcome(ExpM::Assign(name, d), v).value == (match v {
            Some(x) => x,
            None => d,
        }),
        s_expansion_outcome(ExpM::Assign(name, d), v).assign == (match v {
            Some(x) => None::<Seq<char>>,
            None => Some(d),
        }),
{
}

// ---------------------------------------------------------------------------
// Argument expansion.
// ---------------------------------------------------------------------------

/// Looks a name up in an environment snapshot (`None` entries are variables
/// known to be unset; a missing name means unset too).
pub open spec fn s_env_get(env: Seq<(Seq<char>, Option<Seq<char>>)>, name: Seq<char>) -> Option<
    Seq<char>,
>
    decreases env.len(),
{
    if env.len() == 0 {
        None
    } else if env.last().0 == name {
        env.last().1
    } else {
        s_env_get(env.drop_last(), name)
    }
}

/// Looks a name up among the assignments made earlier in the same
/// expansion; the latest one wins.
pub open spec fn s_overlay_get(ov: Seq<(Seq<char>, Seq<char>)>, name: Seq<char>) -> Option<
    Seq<char>,
>
    decreases ov.len(),
{
    if ov.len() == 0 {
        None
    } else if ov.last().0 == name {
        Some(ov.last().1)
    } else {
        s_overlay_get(ov.drop_last(), name)
    }
}

/// The resolved value of a variable: special names from the state, then the
/// assignments already made in this expansion, then the environment
/// snapshot; empty looked-up values collapse to unset.
pub open spec fn s_var_value(
    st: StateM,
    pid: u32,
    env: Seq<(Seq<char>, Option<Seq<char>>)>,
    ov: Seq<(Seq<char>, Seq<char>)>,
    name: Seq<char>,
) -> Option<Seq<char>> {
    match s_special_var(st, name, pid) {
        Some(v) => v,
        None => match s_overlay_get(ov, name) {
            Some(v) => s_collapse(Some(v)),
            None => s_collapse(s_env_get(env, name)),
        },
    }
}

fn env_get(env: &Vec<(String, Option<String>)>, name: &str) -> (r: Option<String>)
    ensures
        opt_dv(r) == s_env_get(env.deep_view(), name@),
{
    let mut i: usize = env.len();
    proof {
        assert(env.deep_view().take(env.len() as int) =~= env.deep_view());
    }
    while i > 0
        invariant
            i <= env.len(),
            s_env_get(env.deep_view(), name@) == s_env_get(
                env.deep_view().take(i as int),
                name@,
            ),
        decreases i,
    {
        proof {
            let dv = env.deep_view();
            assert(dv.take(i as int).last() == dv[i - 1]);
            assert(dv.take(i as int).drop_last() =~= dv.take(i - 1));
        }
        if crate::tokenizer::str_eq(env[i - 1].0.as_str(), name) {
            return match &env[i - 1].1 {
                Some(v) => Some(v.clone()),
                None => None,
            };
        }
        i -= 1;
    }
    proof {
        assert(env.deep_view().take(0) =~= Seq::<(Seq<char>, Option<Seq<char>>)>::empty());
    }
    None
}

fn overlay_get(ov: &Vec<(String, String)>, name: &str) -> (r: Option<String>)
    ensures
        opt_dv(r) == s_overlay_get(ov.deep_view(), name@),
{
    let mut i: usize = ov.len();
    proof {
        assert(ov.deep_view().take(ov.len() as int) =~= ov.deep_view());
    }
    while i > 0
        invariant
            i <= ov.len(),
            s_overlay_get(ov.deep_view(), name@) == s_overlay_get(
                ov.deep_view().take(i as int),
                name@,
            ),
        decreases i,
    {
        proof {
            let dv = ov.deep_view();
            assert(dv.take(i as int).last() == dv[i - 1]);
            assert(dv.take(i as int).drop_last() =~= dv.take(i - 1));
        }
        if crate::tokenizer::str_eq(ov[i - 1].0.as_str(), name) {
            return Some(ov[i - 1].1.clone());
        }
        i -= 1;
    }
    proof {
        assert(ov.deep_view().take(0) =~= Seq::<(Seq<char>, Seq<char>)>::empty());
    }
    None
}

/// Resolves one variable against state, earlier assignments and the
/// environment snapshot.
pub fn var_value(
    state: &State,
    pid: u32,
    env: &Vec<(String, Option<String>)>,
    ov: &Vec<(String, String)>,
    name: &str,
) -> (r: Option<String>)
    ensures
        opt_dv(r) == s_var_value(state.view(), pid, env.deep_view(), ov.deep_view(), name@),
{
    match resolve_special(state, name, pid) {
        Some(v) => v,
        None => match overlay_get(ov, name) {
            Some(v) => collapse_empty(Some(v)),
            None => collapse_empty(env_get(env, name)),
        },
    }
}

/// The result of expanding one argument: its text, how many substitution
/// outputs were consumed, the variable assignments made on the way, and the
/// fatal error of an error-form expansion of an unset variable, if any.
pub struct ExpandM {
    pub value: Seq<char>,
    pub k: nat,
    pub overlay: Seq<(Seq<char>, Seq<char>)>,
    pub fatal: Option<Seq<char>>,
}

/// Expanding an argument: literals stand for themselves, a variable for its
/// resolved value or nothing, a command substitution for the next captured
/// output, a `${...}` form for its outcome, and a merge for the left text
/// followed by the right text with the counters threaded left to right.
pub open spec fn s_expand(
    a: ArgM,
    st: StateM,
    pid: u32,
    env: Seq<(Seq<char>, Option<Seq<char>>)>,
    outs: Seq<Seq<char>>,
    k: nat,
    ov: Seq<(Seq<char>, Seq<char>)>,
) -> ExpandM
    decreases a,
{
    match a {
        ArgM::Name(s) => ExpandM { value: s, k: k, overlay: ov, fatal: None },
        ArgM::Variable(n) => ExpandM {
            value: match s_var_value(st, pid, env, ov, n) {
                Some(v) => v,
                None => Seq::empty(),
            },
            k: k,
            overlay: ov,
            fatal: None,
        },
        ArgM::SubShell(src) => {
            if k < outs.len() {
                ExpandM { value: outs[k as int], k: k + 1, overlay: ov, fatal: None }
            } else {
                ExpandM { value: Seq::empty(), k: k, overlay: ov, fatal: None }
            }
        },
        ArgM::Expansion(e) => {
            let cur = s_var_value(st, pid, env, ov, exp_name(e));
            let oc = s_expansion_outcome(e, cur);
            ExpandM {
                value: oc.value,
                k: k,
                overlay: match oc.assign {
                    Some(d) => ov.push((exp_name(e), d)),
                    None => ov,
                },
                fatal: oc.fatal,
            }
        },
        ArgM::Merge(l, r) => {
            let lr = s_expand(*l, st, pid, env, outs, k, ov);
            if lr.fatal is Some {
                lr
            } else {
                let rr = s_expand(*r, st, pid, env, outs, lr.k, lr.overlay);
                ExpandM {
                    value: lr.value + rr.value,
                    k: rr.k,
                    overlay: rr.overlay,
                    fatal: rr.fatal,
                }
            }
        },
    }
}

/// Deep view of [`expand_argument`]'s result.
pub open spec fn expand_dv(r: (String, usize, Vec<(String, String)>, Option<String>)) -> ExpandM {
    ExpandM { value: r.0@, k: r.1 as nat, overlay: r.2.deep_view(), fatal: opt_dv(r.3) }
}

/// Expands one argument to its text.  `outs` holds the captured outputs of
/// the argument's command substitutions in order, `k` the index of the next
/// one to use; the returned assignments are the `${x:=d}` defaults that the
/// caller must apply to the environment.
pub fn expand_argument(
    a: &Argument,
    state: &State,
    pid: u32,
    env: &Vec<(String, Option<String>)>,
    outs: &Vec<String>,
    k: usize,
    overlay: Vec<(String, String)>,
) -> (r: (String, usize, Vec<(String, String)>, Option<String>))
    ensures
        expand_dv(r) == s_expand(
            arg_dv(*a),
            state.view(),
            pid,
            env.deep_view(),
            outs.deep_view(),
            k as nat,
            overlay.deep_view(),
        ),
    decreases *a,
{
    match a {
        Argument::Name(s) => (s.clone(), k, overlay, None),
        Argument::Variable(v) => {
            let value = match var_value(state, pid, env, &overlay, v.name.as_str()) {
                Some(x) => x,
                None => {
                    let s = String::new();
                    proof {
                        assert(s@ =~= Seq::<char>::empty());
                    }
                    s
                },
            };
            (value, k, overlay, None)
        },
        Argument::SubShell(_src) => {
            if k < outs.len() {
                proof {
                    assert(outs.deep_view()[k as int] == outs[k as int]@);
                }
                (outs[k].clone(), k + 1, overlay, None)
            } else {
                let s = String::new();
                proof {
                    assert(s@ =~= Seq::<char>::empty());
                }
                (s, k, overlay, None)
            }
        },
        Argument::Expansion(e) => {
            let name: &String = match e {
                ExpansionExpr::ParameterExpansion(n) => n,
                ExpansionExpr::StringLengthExpansion(n) => n,
                ExpansionExpr::ParameterSubstitute(n, _d) => n,
                ExpansionExpr::ParameterAssign(n, _d) => n,
                ExpansionExpr::ParameterError(n, _d) => n,
            };
            proof {
                assert(name@ == exp_name(expansion_dv(*e)));
            }
            let cur = var_value(state, pid, env, &overlay, name.as_str());
            let oc = expansion_outcome(e, cur);
            let mut ov2 = overlay;
            let ghost ov0 = ov2.deep_view();
            match oc.assign {
                Some(d) => {
                    ov2.push((name.clone(), d));
                    proof {
                        assert(ov2.deep_view() =~= ov0.push((name@, oc.assign.unwrap()@)));
                    }
                },
                None => {},
            }
            (oc.value, k, ov2, oc.fatal)
        },
        Argument::Merge(m) => {
            let (lv, lk, lov, lf) = expand_argument(&m.left, state, pid, env, outs, k, overlay);
            match lf {
                Some(f) => (lv, lk, lov, Some(f)),
                None => {
                    let (rv, rk, rov, rf) = expand_argument(
                        &m.right,
                        state,
                        pid,
                        env,
                        outs,
                        lk,
                        lov,
                    );
                    let mut value = lv;
                    value.append(rv.as_str());
                    (value, rk, rov, rf)
                },
            }
        },
    }
}

/// Expanding a merged argument concatenates the two sides' texts, the right
/// side evaluated after (and seeing) the left side's substitutions and
/// assignments.
pub proof fn lemma_merge_concatenates(
    l: ArgM,
    r: ArgM,
    st: StateM,
    pid: u32,
    env: Seq<(Seq<char>, Option<Seq<char>>)>,
    outs: Seq<Seq<char>>,
    k: nat,
    ov: Seq<(Seq<char>, Seq<char>)>,
)
    requires
        s_expand(l, st, pid, env, outs, k, ov).fatal is None,
    ensures
        ({
            let lr = s_expand(l, st, pid, env, outs, k, ov);
            let rr = s_expand(r, st, pid, env, outs, lr.k, lr.overlay);
            s_expand(ArgM::Merge(Box::new(l), Box::new(r)), st, pid, env, outs, k, ov).value
                == lr.value + rr.value
        }),
{
}

/// The command-substitution sources inside an argument, in evaluation order.
pub open spec fn s_subshell_sources(a: ArgM) -> Seq<Seq<char>>
    decreases a,
{
    match a {
        ArgM::SubShell(s) => seq![s],
        ArgM::Merge(l, r) => s_subshell_sources(*l) + s_subshell_sources(*r),
        _ => Seq::empty(),
    }
}

/// Collects the command-substitution sources of an argument, in the order
/// the expansion consumes their outputs.
pub fn subshell_sources(a: &Argument) -> (r: Vec<String>)
    ensures
        r.deep_view() == s_subshell_sources(arg_dv(*a)),
    decreases *a,
{
    match a {
        Argument::SubShell(s) => {
            let mut r: Vec<String> = Vec::new();
            r.push(s.shell.clone());
            proof {
                assert(r.deep_view() =~= seq![s.shell@]);
            }
            r
        },
        Argument::Merge(m) => {
            let mut r = subshell_sources(&m.left);
            let ghost l0 = r.deep_view();
            let mut rs = subshell_sources(&m.right);
            let ghost r0 = rs.deep_view();
            r.append(&mut rs);
            proof {
                assert(r.deep_view() =~= l0 + r0);
            }
            r
        },
        _ => {
            let r: Vec<String> = Vec::new();
            proof {
                assert(r.deep_view() =~= Seq::<Seq<char>>::empty());
            }
            r
        },
    }
}

/// The variable names an argument reads, in order (duplicates kept).
pub open spec fn s_variable_names(a: ArgM) -> Seq<Seq<char>>
    decreases a,
{
    match a {
        ArgM::Variable(n) => seq![n],
        ArgM::Expansion(e) => seq![exp_name(e)],
        ArgM::Merge(l, r) => s_variable_names(*l) + s_variable_names(*r),
        _ => Seq::empty(),
    }
}

/// Collects the variable names an argument reads, for the caller to
/// snapshot from the environment.
pub fn variable_names(a: &Argument) -> (r: Vec<String>)
    ensures
        r.deep_view() == s_variable_names(arg_dv(*a)),
    decreases *a,
{
    match a {
        Argument::Variable(v) => {
            let mut r: Vec<String> = Vec::new();
            r.push(v.name.clone());
            proof {
                assert(r.deep_view() =~= seq![v.name@]);
            }
            r
        },
        Argument::Expansion(e) => {
            let name: &String = match e {
                ExpansionExpr::ParameterExpansion(n) => n,
                ExpansionExpr::StringLengthExpansion(n) => n,
                ExpansionExpr::ParameterSubstitute(n, _d) => n,
                ExpansionExpr::ParameterAssign(n, _d) => n,
                ExpansionExpr::ParameterError(n, _d) => n,
            };
            let mut r: Vec<String> = Vec::new();
            r.push(name.clone());
            proof {
                assert(r.deep_view() =~= seq![exp_name(expansion_dv(*e))]);
            }
            r
        },
        Argument::Merge(m) => {
            let mut r = variable_names(&m.left);
            let ghost l0 = r.deep_view();
            let mut rs = variable_names(&m.right);
            let ghost r0 = rs.deep_view();
            r.append(&mut rs);
            proof {
                assert(r.deep_view() =~= l0 + r0);
            }
            r
        },
        _ => {
            let r: Vec<String> = Vec::new();
            proof {
                assert(r.deep_view() =~= Seq::<Seq<char>>::empty());
            }
            r
        },
    }
}

// ---------------------------------------------------------------------------
// Command resolution and the function table.
// ---------------------------------------------------------------------------

/// The fixed built-in table.
pub open spec fn s_builtin(name: Seq<char>) -> Option<BuiltIn> {
    if name == "cd"@ {
        Some(BuiltIn::Cd)
    } else if name == "jobs"@ {
        Some(BuiltIn::Jobs)
    } else if name == "true"@ {
        Some(BuiltIn::True)
    } else if name == "false"@ {
        Some(BuiltIn::False)
    } else if name == "astview"@ {
        Some(BuiltIn::Astview)
    } else if name == "help"@ {
        Some(BuiltIn::Help)
    } else if name == "exit"@ {
        Some(BuiltIn::Exit)
    } else {
        None
    }
}

/// Looks a name up in the built-in table.
pub fn builtin_lookup(name: &str) -> (r: Option<BuiltIn>)
    ensures
        r == s_builtin(name@),
{
    if crate::tokenizer::str_eq(name, "cd") {
        Some(BuiltIn::Cd)
    } else if crate::tokenizer::str_eq(name, "jobs") {
        Some(BuiltIn::Jobs)
    } else if crate::tokenizer::str_eq(name, "true") {
        Some(BuiltIn::True)
    } else if crate::tokenizer::str_eq(name, "false") {
        Some(BuiltIn::False)
    } else if crate::tokenizer::str_eq(name, "astview") {
        Some(BuiltIn::Astview)
    } else if crate::tokenizer::str_eq(name, "help") {
        Some(BuiltIn::Help)
    } else if crate::tokenizer::str_eq(name, "exit") {
        Some(BuiltIn::Exit)
    } else {
        None
    }
}

/// The body a function name is bound to; a redefinition shadows the older
/// binding.
pub open spec fn s_function_body(fns: Seq<(Seq<char>, Seq<PipelineM>)>, name: Seq<char>) -> Option<
    Seq<PipelineM>,
>
    decreases fns.len(),
{
    if fns.len() == 0 {
        None
    } else if fns.last().0 == name {
        Some(fns.last().1)
    } else {
        s_function_body(fns.drop_last(), name)
    }
}

/// How a command name resolves: an empty name is skipped, then built-ins
/// take precedence over user functions, and anything else is an external
/// program to spawn.
pub enum CommandClass {
    Skip,
    Builtin(BuiltIn),
    Function,
    External,
}

/// Model of a [`CommandClass`] (the type is already plain data).
pub open spec fn s_classify(st: StateM, name: Seq<char>) -> CommandClass {
    if name.len() == 0 {
        CommandClass::Skip
    } else {
        match s_builtin(name) {
            Some(b) => CommandClass::Builtin(b),
            None => if s_function_body(st.functions, name) is Some {
                CommandClass::Function
            } else {
                CommandClass::External
            },
        }
    }
}

fn function_index(state: &State, name: &str) -> (r: Option<usize>)
    ensures
        match r {
            Some(i) => i < state.functions.len() && state.functions@[i as int].0@ == name@
                && s_function_body(state.view().functions, name@) == Some(
                pipelines_dv((*state.functions@[i as int].1)@),
            ),
            None => s_function_body(state.view().functions, name@) is None,
        },
{
    let mut i: usize = state.functions.len();
    proof {
        lemma_functions_dv(state.functions@);
        assert(functions_dv(state.functions@).take(state.functions.len() as int)
            =~= functions_dv(state.functions@));
    }
    while i > 0
        invariant
            i <= state.functions.len(),
            s_function_body(state.view().functions, name@) == s_function_body(
                functions_dv(state.functions@).take(i as int),
                name@,
            ),
        decreases i,
    {
        proof {
            lemma_functions_dv(state.functions@);
            let dv = functions_dv(state.functions@);
            assert(dv.take(i as int).last() == dv[i - 1]);
            assert(dv.take(i as int).drop_last() =~= dv.take(i - 1));
        }
        if crate::tokenizer::str_eq(state.functions[i - 1].0.as_str(), name) {
            return Some(i - 1);
        }
        i -= 1;
    }
    proof {
        assert(functions_dv(state.functions@).take(0) =~= Seq::<(
            Seq<char>,
            Seq<PipelineM>,
        )>::empty());
    }
    None
}

/// Resolves a command name: skip, built-in, user function or external
/// program, in that order of precedence.
pub fn classify_command(state: &State, name: &str) -> (r: CommandClass)
    ensures
        r == s_classify(state.view(), name@),
{
    if name.unicode_len() == 0 {
        CommandClass::Skip
    } else {
        match builtin_lookup(name) {
            Some(b) => CommandClass::Builtin(b),
            None => match function_index(state, name) {
                Some(_i) => CommandClass::Function,
                None => CommandClass::External,
            },
        }
    }
}

/// Relies on `Rc::clone`: the clone is the same shared value.
#[verifier::external_body]
fn rc_dup(r: &Rc<Vec<PipeLineExpr>>) -> (res: Rc<Vec<PipeLineExpr>>)
    ensures
        res == *r,
{
    Rc::clone(r)
}

/// Installs (or replaces) a function definition, as evaluating a function
/// definition does; the exit status of doing so is zero.
pub fn define_function(state: &mut State, f: &FunctionExpr) -> (r: i32)
    ensures
        r == 0,
        final(state).view().functions == old(state).view().functions.push(
            (f.fname@, pipelines_dv((*f.commands)@)),
        ),
        s_function_body(final(state).view().functions, f.fname@) == Some(
            pipelines_dv((*f.commands)@),
        ),
        final(state).view().fg_jobs == old(state).view().fg_jobs,
        final(state).view().bg_jobs == old(state).view().bg_jobs,
        final(state).view().prev_status == old(state).view().prev_status,
        final(state).view().argstack == old(state).view().argstack,
{
    let ghost f0 = functions_dv(state.functions@);
    state.functions.push((f.fname.clone(), rc_dup(&f.commands)));
    proof {
        assert(state.functions@.drop_last() =~= old(state).functions@);
        assert(functions_dv(state.functions@) == f0.push(
            (f.fname@, pipelines_dv((*f.commands)@)),
        ));
    }
    0
}

/// Fetches the body bound to a function name, shared.
pub fn lookup_function(state: &State, name: &str) -> (r: Option<Rc<Vec<PipeLineExpr>>>)
    ensures
        match r {
            Some(b) => s_function_body(state.view().functions, name@) == Some(
                pipelines_dv((*b)@),
            ),
            None => s_function_body(state.view().functions, name@) is None,
        },
{
    match function_index(state, name) {
        Some(i) => Some(rc_dup(&state.functions[i].1)),
        None => None,
    }
}

/// Pushes the evaluated argument list of a function invocation onto the
/// positional-argument stack.
pub fn push_frame(state: &mut State, args: Vec<String>)
    ensures
        final(state).view().argstack == old(state).view().argstack.push(args.deep_view()),
        final(state).view().fg_jobs == old(state).view().fg_jobs,
        final(state).view().bg_jobs == old(state).view().bg_jobs,
        final(state).view().prev_status == old(state).view().prev_status,
        final(state).view().functions == old(state).view().functions,
{
    let ghost a0 = state.argstack.deep_view();
    let ghost am = args.deep_view();
    state.argstack.push(args);
    proof {
        assert(state.argstack.deep_view() =~= a0.push(am));
    }
}

/// Pops the positional-argument frame when a function invocation ends; it
/// must be popped even when the body failed, so the stack cannot leak.
pub fn pop_frame(state: &mut State)
    ensures
        old(state).view().argstack.len() > 0 ==> final(state).view().argstack == old(
            state,
        ).view().argstack.drop_last(),
        old(state).view().argstack.len() == 0 ==> final(state).view().argstack == old(
            state,
        ).view().argstack,
        final(state).view().fg_jobs == old(state).view().fg_jobs,
        final(state).view().bg_jobs == old(state).view().bg_jobs,
        final(state).view().prev_status == old(state).view().prev_status,
        final(state).view().functions == old(state).view().functions,
{
    let ghost a0 = state.argstack.deep_view();
    if state.argstack.len() > 0 {
        let popped = state.argstack.pop();
        proof {
            assert(state.argstack.deep_view() =~= a0.drop_last());
        }
    }
}

// ---------------------------------------------------------------------------
// Pipeline wiring, finalization and statuses.
// ---------------------------------------------------------------------------

/// Whether stage `i` of `len` must have its stdout piped: every stage but
/// the last, and the last too when its output is captured or redirected to
/// a file.
pub fn wants_stdout_pipe(
    i: usize,
    len: usize,
    capture: bool,
    redirect: &Option<RedirectExpr>,
) -> (r: bool)
    ensures
        r == (i + 1 < len || capture || (match redirect {
            Some(rd) => rd.mode != RedirectType::In,
            None => false,
        })),
{
    (len > 0 && i < len - 1) || capture || (match redirect {
        Some(rd) => !(rd.mode == RedirectType::In),
        None => false,
    })
}

/// How a pipeline is finalized once assembled, in order of precedence:
/// capture, file redirect, then plain foreground wait or background return.
pub enum FinalizeMode {
    CaptureWait,
    CaptureSkip,
    FileOut,
    FileAppend,
    FileIn,
    BackgroundReturn,
    ForegroundWait,
}

/// The finalization mode of a pipeline: output capture takes precedence
/// over a file redirect, which takes precedence over the plain paths; a
/// backgrounded capture is skipped and a backgrounded plain pipeline
/// returns at once.
pub fn finalize_mode(capture: bool, redirect: &Option<RedirectExpr>, background: bool) -> (r:
    FinalizeMode)
    ensures
        capture && !background ==> r == FinalizeMode::CaptureWait,
        capture && background ==> r == FinalizeMode::CaptureSkip,
        !capture ==> (match redirect {
            Some(rd) => (rd.mode == RedirectType::Out ==> r == FinalizeMode::FileOut) && (rd.mode
                == RedirectType::OutAppend ==> r == FinalizeMode::FileAppend) && (rd.mode
                == RedirectType::In ==> r == FinalizeMode::FileIn),
            None => (background ==> r == FinalizeMode::BackgroundReturn) && (!background ==> r
                == FinalizeMode::ForegroundWait),
        }),
{
    if capture {
        if background {
            FinalizeMode::CaptureSkip
        } else {
            FinalizeMode::CaptureWait
        }
    } else {
        match redirect {
            Some(rd) => match rd.mode {
                RedirectType::Out => FinalizeMode::FileOut,
                RedirectType::OutAppend => FinalizeMode::FileAppend,
                RedirectType::In => FinalizeMode::FileIn,
            },
            None => if background {
                FinalizeMode::BackgroundReturn
            } else {
                FinalizeMode::ForegroundWait
            },
        }
    }
}

/// The status of a plainly finalized pipeline: a backgrounded one reports
/// zero at once whatever its process later does; a foreground one reports
/// the child's exit code, or the signal sentinel when there is none.
pub fn plain_wait_status(background: bool, code: Option<i32>) -> (r: i32)
    ensures
        background ==> r == 0,
        !background ==> (code is Some ==> r == code.unwrap()) && (code is None ==> r
            == crate::SIGNAL_STATUS),
{
    if background {
        0
    } else {
        crate::status_from_code(code)
    }
}

/// Strips exactly one trailing newline from a captured output, and nothing
/// more.
pub fn trim_captured(s: String) -> (r: String)
    ensures
        s@.len() > 0 && s@.last() == '\n' ==> r@ == s@.drop_last(),
        !(s@.len() > 0 && s@.last() == '\n') ==> r@ == s@,
{
    let n = s.as_str().unicode_len();
    if n > 0 && s.as_str().get_char(n - 1) == '\n' {
        let r = s.as_str().substring_char(0, n - 1).to_owned();
        proof {
            assert(r@ =~= s@.drop_last());
        }
        r
    } else {
        s
    }
}

// ---------------------------------------------------------------------------
// Short-circuit combination.
// ---------------------------------------------------------------------------

/// Whether the right side of `&&` is evaluated at all.
pub open spec fn s_need_right_and(left: int) -> bool {
    left == 0
}

/// Whether the right side of `||` is evaluated at all.
pub open spec fn s_need_right_or(left: int) -> bool {
    left != 0
}

/// Whether `&&` must evaluate its right side, given the left status.
pub fn need_right_and(left: i32) -> (r: bool)
    ensures
        r == s_need_right_and(left as int),
{
    left == 0
}

/// Whether `||` must evaluate its right side, given the left status.
pub fn need_right_or(left: i32) -> (r: bool)
    ensures
        r == s_need_right_or(left as int),
{
    left != 0
}

/// The status of `left && right`: the right status is present exactly when
/// it was evaluated.
pub fn and_combine(left: i32, right: Option<i32>) -> (r: i32)
    requires
        (right is Some) == s_need_right_and(left as int),
    ensures
        left != 0 ==> r == left,
        left == 0 ==> r == right.unwrap(),
{
    match right {
        Some(rr) => rr,
        None => left,
    }
}

/// The status of `left || right`: the right status is present exactly when
/// it was evaluated.
pub fn or_combine(left: i32, right: Option<i32>) -> (r: i32)
    requires
        (right is Some) == s_need_right_or(left as int),
    ensures
        left == 0 ==> r == left,
        left != 0 ==> r == right.unwrap(),
{
    match right {
        Some(rr) => rr,
        None => left,
    }
}

/// The status of `! condition`.
pub fn not_status(s: i32) -> (r: i32)
    ensures
        s == 0 ==> r == 1,
        s != 0 ==> r == 0,
{
    if s == 0 {
        1
    } else {
        0
    }
}

/// Short-circuit evaluation: a failing left side of `&&` skips the right
/// side and is itself the result, and a succeeding left side of `||`
/// likewise.
pub proof fn lemma_short_circuit(left: int)
    ensures
        left != 0 ==> !s_need_right_and(left),
        left == 0 ==> !s_need_right_or(left),
{
}

// ---------------------------------------------------------------------------
// Built-in helpers.
// ---------------------------------------------------------------------------

/// The text the `help` built-in prints.
pub fn help_text() -> (r: String)
    ensures
        r@ == (
        "slush: A shell you can drink!\n\nBuiltins:\n  cd <dir> - change directory\n  exit [code] - exit the shell, optionally with a code\n  astview \'<command>\' - view the abstract syntax tree of a command\n  true - return 0\n  false - return 1\n  help - print this message"@),
{
    String::from_str(
        "slush: A shell you can drink!\n\nBuiltins:\n  cd <dir> - change directory\n  exit [code] - exit the shell, optionally with a code\n  astview \'<command>\' - view the abstract syntax tree of a command\n  true - return 0\n  false - return 1\n  help - print this message",
    )
}

/// The code the `exit` built-in terminates with: its first argument read as
/// a decimal integer, zero when there is none or it does not parse.
pub fn exit_code_arg(args: &Vec<String>) -> (r: i32)
    ensures
        args.len() == 0 ==> r == 0,
        args.len() > 0 ==> r as int == crate::digits::i32_or_zero(args.deep_view()[0]),
{
    if args.len() == 0 {
        0
    } else {
        crate::digits::parse_i32_or_zero(args[0].as_str())
    }
}

/// The message reported when spawning an external command fails.
pub fn spawn_error_message(name: &str, oserr: &str) -> (r: String)
    ensures
        r@ == "Error spawning "@ + name@ + ": "@ + oserr@,
{
    let mut m = String::from_str("Error spawning ");
    m.append(name);
    m.append(": ");
    m.append(oserr);
    m
}

/// One line of the `jobs` listing.
pub open spec fn s_job_line(index: nat, status: Seq<char>, parts: Seq<Seq<char>>) -> Seq<char> {
    "["@ + crate::digits::dec_rep(index + 1) + "] "@ + status + s_joined_parts(parts)
}

/// The command words of a job, each preceded by one space.
pub open spec fn s_joined_parts(parts: Seq<Seq<char>>) -> Seq<char>
    decreases parts.len(),
{
    if parts.len() == 0 {
        Seq::empty()
    } else {
        s_joined_parts(parts.drop_last()) + seq![' '] + parts.last()
    }
}

fn joined_parts(parts: &Vec<String>) -> (r: String)
    ensures
        r@ == s_joined_parts(parts.deep_view()),
{
    let mut s = String::new();
    let mut i: usize = 0;
    proof {
        assert(s@ =~= Seq::<char>::empty());
        assert(parts.deep_view().take(0) =~= Seq::<Seq<char>>::empty());
    }
    while i < parts.len()
        invariant
            i <= parts.len(),
            s@ == s_joined_parts(parts.deep_view().take(i as int)),
        decreases parts.len() - i,
    {
        s.append(" ");
        s.append(parts[i].as_str());
        proof {
            reveal_strlit(" ");
            assert(" "@ =~= seq![' ']);
            let dv = parts.deep_view();
            assert(dv.take(i + 1).drop_last() =~= dv.take(i as int));
            assert(dv.take(i + 1).last() == dv[i as int]);
        }
        i += 1;
    }
    proof {
        assert(parts.deep_view().take(parts.len() as int) =~= parts.deep_view());
    }
    s
}

/// The lines the `jobs` built-in prints: with no option one listing line
/// per background job; with `-p` one pid per line; `-l` and unknown
/// options give their fixed messages.
pub fn jobs_output(opt: &Option<String>, jobs: &Vec<Job>, statuses: &Vec<String>) -> (r: Vec<
    String,
>)
    requires
        statuses.len() == jobs.len(),
    ensures
        opt is None ==> r.deep_view().len() == jobs.len() && (forall|i: int|
            0 <= i < jobs.len() ==> r.deep_view()[i] == s_job_line(
                i as nat,
                statuses.deep_view()[i],
                jobs.deep_view()[i].cmd,
            )),
        opt matches Some(o) ==> (if o@ == "-p"@ {
            r.deep_view().len() == jobs.len() && (forall|i: int|
                0 <= i < jobs.len() ==> r.deep_view()[i] == crate::digits::dec_rep(
                    jobs.deep_view()[i].pid as nat,
                ))
        } else if o@ == "-l"@ {
            r.deep_view() == seq!["The option `-l` is not supported at the moment"@]
        } else {
            r.deep_view() == seq!["invalid option `"@ + o@ + "`"@]
        }),
{
    match opt {
        None => {
            let mut r: Vec<String> = Vec::new();
            let mut i: usize = 0;
            while i < jobs.len()
                invariant
                    i <= jobs.len(),
                    statuses.len() == jobs.len(),
                    r.len() == i,
                    forall|j: int|
                        0 <= j < i ==> r.deep_view()[j] == s_job_line(
                            j as nat,
                            statuses.deep_view()[j],
                            jobs.deep_view()[j].cmd,
                        ),
                decreases jobs.len() - i,
            {
                let ghost r0 = r.deep_view();
                let mut line = String::from_str("[");
                line.append(crate::digits::u64_to_string((i + 1) as u64).as_str());
                line.append("] ");
                line.append(statuses[i].as_str());
                line.append(joined_parts(&jobs[i].cmd.parts).as_str());
                proof {
                    assert(jobs.deep_view()[i as int].cmd == jobs@[i as int].cmd.parts.deep_view());
                    assert(statuses.deep_view()[i as int] == statuses@[i as int]@);
                    assert(line@ == s_job_line(
                        i as nat,
                        statuses.deep_view()[i as int],
                        jobs.deep_view()[i as int].cmd,
                    ));
                }
                r.push(line);
                proof {
                    assert(r.deep_view() =~= r0.push(
                        s_job_line(
                            i as nat,
                            statuses.deep_view()[i as int],
                            jobs.deep_view()[i as int].cmd,
                        ),
                    ));
                }
                i += 1;
            }
            r
        },
        Some(o) => {
            if crate::tokenizer::str_eq(o.as_str(), "-p") {
                let mut r: Vec<String> = Vec::new();
                let mut i: usize = 0;
                while i < jobs.len()
                    invariant
                        i <= jobs.len(),
                        r.len() == i,
                        forall|j: int|
                            0 <= j < i ==> r.deep_view()[j] == crate::digits::dec_rep(
                                jobs.deep_view()[j].pid as nat,
                            ),
                    decreases jobs.len() - i,
                {
                    let ghost r0 = r.deep_view();
                    let line = crate::digits::u64_to_string(jobs[i].pid as u64);
                    proof {
                        assert(jobs.deep_view()[i as int].pid == jobs@[i as int].pid);
                    }
                    r.push(line);
                    proof {
                        assert(r.deep_view() =~= r0.push(
                            crate::digits::dec_rep(jobs.deep_view()[i as int].pid as nat),
                        ));
                    }
                    i += 1;
                }
                r
            } else if crate::tokenizer::str_eq(o.as_str(), "-l") {
                let mut r: Vec<String> = Vec::new();
                r.push(String::from_str("The option `-l` is not supported at the moment"));
                proof {
                    assert(r.deep_view() =~= seq![
                        "The option `-l` is not supported at the moment"@,
                    ]);
                }
                r
            } else {
                let mut m = String::from_str("invalid option `");
                m.append(o.as_str());
                m.append("`");
                let mut r: Vec<String> = Vec::new();
                r.push(m);
                proof {
                    assert(r.deep_view() =~= seq!["invalid option `"@ + o@ + "`"@]);
                }
                r
            }
        },
    }
}

// ---------------------------------------------------------------------------
// Building the argv of an external command.
// ---------------------------------------------------------------------------

/// The result of expanding a whole argv.
pub struct BuildM {
    pub parts: Seq<Seq<char>>,
    pub k: nat,
    pub overlay: Seq<(Seq<char>, Seq<char>)>,
    pub fatal: Option<Seq<char>>,
}

/// Expands the arguments from index `i` on, threading the substitution
/// counter and the assignments left to right.
pub open spec fn s_expand_list(
    args: Seq<ArgM>,
    i: nat,
    st: StateM,
    pid: u32,
    env: Seq<(Seq<char>, Option<Seq<char>>)>,
    outs: Seq<Seq<char>>,
    k: nat,
    ov: Seq<(Seq<char>, Seq<char>)>,
) -> BuildM
    decreases args.len() - i,
{
    if i >= args.len() {
        BuildM { parts: Seq::empty(), k: k, overlay: ov, fatal: None }
    } else {
        let h = s_expand(args[i as int], st, pid, env, outs, k, ov);
        if h.fatal is Some {
            BuildM { parts: Seq::empty(), k: h.k, overlay: h.overlay, fatal: h.fatal }
        } else {
            let rest = s_expand_list(args, i + 1, st, pid, env, outs, h.k, h.overlay);
            BuildM {
                parts: seq![h.value] + rest.parts,
                k: rest.k,
                overlay: rest.overlay,
                fatal: rest.fatal,
            }
        }
    }
}

/// The expanded argv of a command: the command word first, then each
/// argument, sharing one left-to-right thread of substitution outputs and
/// assignments.
pub open spec fn s_build_command(
    c: CommandM,
    st: StateM,
    pid: u32,
    env: Seq<(Seq<char>, Option<Seq<char>>)>,
    outs: Seq<Seq<char>>,
    k: nat,
) -> BuildM {
    let h = s_expand(c.command, st, pid, env, outs, k, Seq::empty());
    if h.fatal is Some {
        BuildM { parts: Seq::empty(), k: h.k, overlay: h.overlay, fatal: h.fatal }
    } else {
        let rest = s_expand_list(c.arguments, 0, st, pid, env, outs, h.k, h.overlay);
        BuildM {
            parts: seq![h.value] + rest.parts,
            k: rest.k,
            overlay: rest.overlay,
            fatal: rest.fatal,
        }
    }
}

fn expand_list(
    args: &Vec<Argument>,
    i: usize,
    state: &State,
    pid: u32,
    env: &Vec<(String, Option<String>)>,
    outs: &Vec<String>,
    k: usize,
    overlay: Vec<(String, String)>,
) -> (r: (Vec<String>, usize, Vec<(String, String)>, Option<String>))
    requires
        i <= args.len(),
    ensures
        ({
            let m = s_expand_list(
                args.deep_view(),
                i as nat,
                state.view(),
                pid,
                env.deep_view(),
                outs.deep_view(),
                k as nat,
                overlay.deep_view(),
            );
            r.0.deep_view() == m.parts && r.1 as nat == m.k && r.2.deep_view() == m.overlay
                && opt_dv(r.3) == m.fatal
        }),
    decreases args.len() - i,
{
    if i >= args.len() {
        let parts: Vec<String> = Vec::new();
        proof {
            assert(parts.deep_view() =~= Seq::<Seq<char>>::empty());
        }
        (parts, k, overlay, None)
    } else {
        proof {
            assert(args.deep_view()[i as int] == arg_dv(args@[i as int]));
        }
        let (hv, hk, hov, hf) = expand_argument(&args[i], state, pid, env, outs, k, overlay);
        match hf {
            Some(f) => {
                let parts: Vec<String> = Vec::new();
                proof {
                    assert(parts.deep_view() =~= Seq::<Seq<char>>::empty());
                }
                (parts, hk, hov, Some(f))
            },
            None => {
                let ghost hvm = hv@;
                let (rest, rk, rov, rf) = expand_list(args, i + 1, state, pid, env, outs, hk, hov);
                let ghost rest0 = rest.deep_view();
                let mut parts = rest;
                parts.insert(0, hv);
                proof {
                    assert(parts.deep_view() =~= seq![hvm] + rest0);
                }
                (parts, rk, rov, rf)
            },
        }
    }
}

impl CommandExpr {
    /// Expands this command's argv: the command word and every argument,
    /// against the state, the environment snapshot and the captured
    /// substitution outputs from index `k` on.  Returns the argv, the next
    /// substitution index, the assignments to apply, and the fatal error of
    /// an error-form expansion, if any.
    pub fn build_command_str(
        &self,
        state: &State,
        pid: u32,
        env: &Vec<(String, Option<String>)>,
        outs: &Vec<String>,
        k: usize,
    ) -> (r: (CommandStr, usize, Vec<(String, String)>, Option<String>))
        ensures
            ({
                let m = s_build_command(
                    command_dv(*self),
                    state.view(),
                    pid,
                    env.deep_view(),
                    outs.deep_view(),
                    k as nat,
                );
                commandstr_dv(r.0) == m.parts && r.1 as nat == m.k && r.2.deep_view() == m.overlay
                    && opt_dv(r.3) == m.fatal
            }),
    {
        let overlay0: Vec<(String, String)> = Vec::new();
        proof {
            assert(overlay0.deep_view() =~= Seq::<(Seq<char>, Seq<char>)>::empty());
        }
        let (hv, hk, hov, hf) = expand_argument(
            &self.command,
            state,
            pid,
            env,
            outs,
            k,
            overlay0,
        );
        match hf {
            Some(f) => {
                let parts: Vec<String> = Vec::new();
                proof {
                    assert(parts.deep_view() =~= Seq::<Seq<char>>::empty());
                }
                (CommandStr { parts: parts }, hk, hov, Some(f))
            },
            None => {
                let ghost hvm = hv@;
                proof {
                    assert(args_dv(self.arguments@) =~= self.arguments.deep_view());
                }
                let (rest, rk, rov, rf) = expand_list(
                    &self.arguments,
                    0,
                    state,
                    pid,
                    env,
                    outs,
                    hk,
                    hov,
                );
                let ghost rest0 = rest.deep_view();
                let mut parts = rest;
                parts.insert(0, hv);
                proof {
                    assert(parts.deep_view() =~= seq![hvm] + rest0);
                }
                (CommandStr { parts: parts }, rk, rov, rf)
            },
        }
    }
}

/// What waiting on a child with its streams drained yields: the exit code
/// (none when killed by a signal) and the collected output bytes.
#[derive(Debug, PartialEq)]
pub struct Output {
    pub status: Option<i32>,
    pub stdout: Vec<u8>,
    pub stderr: Vec<u8>,
}

impl Output {
    /// The shell status this output reports: the exit code, or the signal
    /// sentinel when there is none.
    pub fn status_code(&self) -> (r: i32)
        ensures
            self.status is Some ==> r == self.status.unwrap(),
            self.status is None ==> r == crate::SIGNAL_STATUS,
    {
        crate::status_from_code(self.status)
    }
}

/// Whether an exit status counts as success, as `if` and `while` conditions
/// test it: the `then` branch and another loop round run exactly on zero.
pub fn condition_holds(status: i32) -> (r: bool)
    ensures
        r == (status == 0),
{
    status == 0
}

} // verus!
