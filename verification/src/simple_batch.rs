//! The batch system: tasks, their identifiers and the queue that runs every
//! ready task once, highest priority first and, among tasks of equal
//! priority, in the order in which the tasks were added.
use vstd::prelude::*;
use crate::addr::VirtAddr;
use vstd::std_specs::iter::IteratorSpec;
use crate::context::{
    TaskContext,
    fresh_context,
    general_registers_zero,
    KERNEL_CODE_SELECTOR,
    KERNEL_DATA_SELECTOR,
    USER_CODE_SELECTOR,
    USER_DATA_SELECTOR,
};

verus! {

/// Number of task slots of the batch system.
pub const MAX_TASKS: usize = 10;

/// Where a user program's code starts.
pub const USER_CODE_START: u64 = 0x400000;

/// Where a user program's stack starts.
pub const USER_STACK_START: u64 = 0x800000;

/// Size of a user program's stack.
pub const USER_STACK_SIZE: usize = 8192;

/// Size of the kernel stack that each task carries.
pub const KERNEL_STACK_SIZE: usize = 4096;

/// Number of Fibonacci terms that the `fibonacci` program reports.
pub const FIBONACCI_TERMS: usize = 10;

/// The life cycle of a task.
#[derive(Debug, Clone, Copy, PartialEq, Eq, Structural)]
pub enum TaskState {
    Ready,
    Running,
    Terminated,
}

/// Priority of a task, from lowest to highest.
#[derive(Debug, Clone, Copy, PartialEq, Eq, Structural, PartialOrd, Ord)]
pub enum TaskPriority {
    Low,
    Normal,
    High,
}

/// Hands out task identifiers: 1 first, then each next number, wrapping
/// around after `usize::MAX`.
pub struct TaskIdAllocator {
    next: usize,
}

impl View for TaskIdAllocator {
    type V = usize;

    /// The identifier that the next allocation returns.
    closed spec fn view(&self) -> usize {
        self.next
    }
}

/// The number that follows `id`, wrapping around after `usize::MAX`.
pub open spec fn next_id(id: usize) -> usize {
    if id == usize::MAX {
        0
    } else {
        (id + 1) as usize
    }
}

impl TaskIdAllocator {
    /// An allocator whose first identifier is 1.
    pub fn new() -> (r: Self)
        ensures
            r@ == 1,
    {
        TaskIdAllocator { next: 1 }
    }

    /// Returns the current identifier and moves on to the next one.
    pub fn allocate(&mut self) -> (id: usize)
        ensures
            id == old(self)@,
            final(self)@ == next_id(old(self)@),
    {
        let id = self.next;
        self.next = self.next.wrapping_add(1);
        id
    }
}

/// The user context of a fresh task: it starts at the user code and its
/// stack pointer is the top of the user stack.
pub open spec fn initial_user_context() -> TaskContext {
    fresh_context(
        USER_CODE_START,
        (USER_STACK_START + USER_STACK_SIZE) as u64,
        USER_CODE_SELECTOR,
        USER_DATA_SELECTOR,
    )
}

/// The kernel context of a fresh task.
pub open spec fn initial_kernel_context() -> TaskContext {
    fresh_context(0, 0, KERNEL_CODE_SELECTOR, KERNEL_DATA_SELECTOR)
}

/// What a task holds, as plain values.
pub struct TaskView {
    pub id: usize,
    pub name: Seq<char>,
    pub state: TaskState,
    pub priority: TaskPriority,
    pub code: Seq<u8>,
    pub context: TaskContext,
    pub kernel_stack: Seq<u8>,
    pub kernel_context: TaskContext,
}

/// A task of the batch system.
#[derive(Debug, Clone)]
pub struct Task {
    id: usize,
    name: &'static str,
    state: TaskState,
    priority: TaskPriority,
    code: &'static [u8],
    context: TaskContext,
    kernel_stack: [u8; KERNEL_STACK_SIZE],
    kernel_context: TaskContext,
}

impl View for Task {
    type V = TaskView;

    closed spec fn view(&self) -> TaskView {
        TaskView {
            id: self.id,
            name: self.name@,
            state: self.state,
            priority: self.priority,
            code: self.code@,
            context: self.context,
            kernel_stack: self.kernel_stack@,
            kernel_context: self.kernel_context,
        }
    }
}

/// The `n`-th Fibonacci number, `fib(0) == 0` and `fib(1) == 1`.
pub open spec fn fib(n: nat) -> nat
    decreases n,
{
    if n == 0 {
        0
    } else if n == 1 {
        1
    } else {
        fib((n - 2) as nat) + fib((n - 1) as nat)
    }
}

/// The terms that the `fibonacci` program reports: `fib(1)` to `fib(10)`.
pub open spec fn fibonacci_terms() -> Seq<u64> {
    Seq::new(FIBONACCI_TERMS as nat, |i: int| fib((i + 1) as nat) as u64)
}

/// What running a user program produced.
#[derive(Debug, Clone, PartialEq, Eq)]
pub enum ProgramOutput {
    /// The `hello_world` program greeted the world.
    HelloWorld,
    /// The `fibonacci` program reported these terms, in order.
    Fibonacci(Vec<u64>),
    /// No program of that name is known.
    Unknown,
}

/// `out` is what the program called `name` produces.
pub open spec fn output_of(name: Seq<char>, out: ProgramOutput) -> bool {
    if name == "hello_world"@ {
        out == ProgramOutput::HelloWorld
    } else if name == "fibonacci"@ {
        out matches ProgramOutput::Fibonacci(terms) && terms@ == fibonacci_terms()
    } else {
        out == ProgramOutput::Unknown
    }
}

/// The task after it has run: terminated, all else as it was.
pub open spec fn terminated(t: TaskView) -> TaskView {
    TaskView { state: TaskState::Terminated, ..t }
}

/// Fibonacci numbers never decrease.
pub proof fn lemma_fib_monotone(i: nat, j: nat)
    requires
        i <= j,
    ensures
        fib(i) <= fib(j),
    decreases j - i,
{
    if j < 2 {
    } else if i == j {
    } else if i == j - 1 {
    } else {
        lemma_fib_monotone(i, (j - 1) as nat);
        lemma_fib_monotone(i, (j - 2) as nat);
    }
}

/// Whether two strings hold the same characters.
fn str_equal(a: &str, b: &str) -> (r: bool)
    ensures
        r == (a@ == b@),
{
    broadcast use vstd::string::axiom_spec_iter, vstd::string::next_postcondition;

    let mut ia = a.chars();
    let mut ib = b.chars();
    let ghost mut k: int = 0;
    loop
        invariant
            0 <= k <= a@.len(),
            k <= b@.len(),
            ia.remaining() == a@.skip(k),
            ib.remaining() == b@.skip(k),
            a@.take(k) == b@.take(k),
            ia.obeys_prophetic_iter_laws(),
            ib.obeys_prophetic_iter_laws(),
        decreases a@.len() - k,
    {
        let ca = ia.next();
        let cb = ib.next();
        match (ca, cb) {
            (Some(x), Some(y)) => {
                if x != y {
                    assert(a@[k] != b@[k]);
                    return false;
                }
                proof {
                    assert(a@.take(k + 1) =~= a@.take(k).push(x));
                    assert(b@.take(k + 1) =~= b@.take(k).push(y));
                    assert(a@.skip(k).drop_first() =~= a@.skip(k + 1));
                    assert(b@.skip(k).drop_first() =~= b@.skip(k + 1));
                    k = k + 1;
                }
            },
            (None, None) => {
                assert(a@ =~= a@.take(k));
                assert(b@ =~= b@.take(k));
                return true;
            },
            _ => {
                return false;
            },
        }
    }
}

/// The terms `fib(1)` to `fib(10)`, computed as the `fibonacci` program does.
fn fibonacci_program_terms() -> (r: Vec<u64>)
    ensures
        r@ == fibonacci_terms(),
{
    let mut terms: Vec<u64> = Vec::new();
    let mut a: u64 = 0;
    let mut b: u64 = 1;
    assert(fib(11) == 89) by {
        reveal_with_fuel(fib, 12);
    }
    let mut i: usize = 0;
    while i < FIBONACCI_TERMS
        invariant
            i <= FIBONACCI_TERMS,
            a == fib(i as nat),
            b == fib((i + 1) as nat),
            fib(11) == 89,
            terms@ == fibonacci_terms().take(i as int),
        decreases FIBONACCI_TERMS - i,
    {
        proof {
            lemma_fib_monotone((i + 2) as nat, 11);
            assert(fib((i + 2) as nat) == fib(i as nat) + fib((i + 1) as nat));
        }
        terms.push(b);
        assert(terms@ =~= fibonacci_terms().take(i as int + 1));
        let next = a + b;
        a = b;
        b = next;
        i = i + 1;
    }
    assert(terms@ =~= fibonacci_terms());
    terms
}

impl Task {
    /// A ready task named `name` that runs `code`, with the next identifier
    /// of `ids`, a user context at the user code and stack, a kernel context
    /// and a zeroed kernel stack.
    pub fn new(
        ids: &mut TaskIdAllocator,
        name: &'static str,
        priority: TaskPriority,
        code: &'static [u8],
    ) -> (r: Self)
        ensures
            r@ == (TaskView {
                id: old(ids)@,
                name: name@,
                state: TaskState::Ready,
                priority,
                code: code@,
                context: initial_user_context(),
                kernel_stack: Seq::new(KERNEL_STACK_SIZE as nat, |i: int| 0u8),
                kernel_context: initial_kernel_context(),
            }),
            final(ids)@ == next_id(old(ids)@),
            r@.id == old(ids)@,
            r@.state == TaskState::Ready,
            general_registers_zero(r@.context),
            r@.context.rip == 0x400000,
            r@.context.rsp == 0x802000,
            r@.context.rflags == 0x200,
            r@.context.cs == 0x1b,
            r@.context.ss == 0x23,
            general_registers_zero(r@.kernel_context),
            r@.kernel_context.rip == 0,
            r@.kernel_context.rsp == 0,
            r@.kernel_context.rflags == 0x200,
            r@.kernel_context.cs == 0x8,
            r@.kernel_context.ss == 0x10,
            r@.kernel_stack.len() == 4096,
            forall|i: int| 0 <= i < 4096 ==> #[trigger] r@.kernel_stack[i] == 0,
    {
        let id = ids.allocate();
        let code_addr = VirtAddr::new(USER_CODE_START);
        let stack_top = VirtAddr::new(USER_STACK_START + USER_STACK_SIZE as u64);
        let user_context = TaskContext::new_user(code_addr, stack_top);
        let kernel_context = TaskContext::new_kernel();
        let kernel_stack = [0u8; KERNEL_STACK_SIZE];
        let t = Task {
            id,
            name,
            state: TaskState::Ready,
            priority,
            code,
            context: user_context,
            kernel_stack,
            kernel_context,
        };
        assert(t@.kernel_stack =~= Seq::new(KERNEL_STACK_SIZE as nat, |i: int| 0u8));
        t
    }

    /// The task's identifier.
    pub fn id(&self) -> (r: usize)
        ensures
            r == self@.id,
    {
        self.id
    }

    /// The task's name.
    pub fn name(&self) -> (r: &'static str)
        ensures
            r@ == self@.name,
    {
        self.name
    }

    /// The task's state.
    pub fn state(&self) -> (r: TaskState)
        ensures
            r == self@.state,
    {
        self.state
    }

    /// Sets the task's state; nothing else changes.
    pub fn set_state(&mut self, state: TaskState)
        ensures
            final(self)@ == (TaskView { state, ..old(self)@ }),
    {
        self.state = state;
    }

    /// The task's priority.
    pub fn priority(&self) -> (r: TaskPriority)
        ensures
            r == self@.priority,
    {
        self.priority
    }

    /// The code of the task's user program.
    pub fn code(&self) -> (r: &'static [u8])
        ensures
            r@ == self@.code,
    {
        self.code
    }

    /// Runs the task's program, which is chosen by the task's name, and
    /// leaves the task terminated. Returns what the program produced.
    pub fn execute(&mut self) -> (out: ProgramOutput)
        ensures
            final(self)@ == terminated(old(self)@),
            output_of(old(self)@.name, out),
            final(self)@.state == TaskState::Terminated,
            final(self)@.id == old(self)@.id,
            final(self)@.name == old(self)@.name,
            final(self)@.priority == old(self)@.priority,
            final(self)@.code == old(self)@.code,
    {
        self.state = TaskState::Running;
        let out = if str_equal(self.name, "hello_world") {
            ProgramOutput::HelloWorld
        } else if str_equal(self.name, "fibonacci") {
            ProgramOutput::Fibonacci(fibonacci_program_terms())
        } else {
            ProgramOutput::Unknown
        };
        self.state = TaskState::Terminated;
        out
    }
}

/// The ready tasks of `tasks`, in order.
pub open spec fn ready_tasks(tasks: Seq<TaskView>) -> Seq<TaskView>
    decreases tasks.len(),
{
    if tasks.len() == 0 {
        Seq::empty()
    } else {
        let before = ready_tasks(tasks.drop_last());
        if tasks.last().state == TaskState::Ready {
            before.push(tasks.last())
        } else {
            before
        }
    }
}

/// A task as a run of the batch system leaves it: a ready task has run and
/// is terminated, any other task is as it was.
pub open spec fn after_run(t: TaskView) -> TaskView {
    if t.state == TaskState::Ready {
        terminated(t)
    } else {
        t
    }
}

/// The record of one task that the batch system ran.
#[derive(Debug, Clone, PartialEq, Eq)]
pub struct TaskExecution {
    pub id: usize,
    pub name: &'static str,
    pub output: ProgramOutput,
}

/// `e` records the run of task `t`.
pub open spec fn records_run_of(e: TaskExecution, t: TaskView) -> bool {
    &&& e.id == t.id
    &&& e.name@ == t.name
    &&& output_of(t.name, e.output)
}

/// `runs` records, one for one and in order, the runs of `tasks`.
pub open spec fn records_runs_of(runs: Seq<TaskExecution>, tasks: Seq<TaskView>) -> bool {
    &&& runs.len() == tasks.len()
    &&& forall|k: int| 0 <= k < runs.len() ==> records_run_of(#[trigger] runs[k], tasks[k])
}

/// What a run of the batch system did.
#[derive(Debug, Clone, PartialEq, Eq)]
pub struct RunReport {
    /// How many tasks the system held when the run started.
    pub task_count: usize,
    /// The tasks that ran, in the order in which they ran.
    pub executions: Vec<TaskExecution>,
    /// How many tasks ran.
    pub completed: usize,
}

/// The batch system: a fixed number of task slots, filled from the first
/// one on.
pub struct SimpleBatchSystem {
    tasks: Vec<Option<Task>>,
    task_count: usize,
    current_index: usize,
}

impl View for SimpleBatchSystem {
    type V = Seq<TaskView>;

    /// The tasks of the system, in the order in which they were added.
    closed spec fn view(&self) -> Seq<TaskView> {
        Seq::new(self.task_count as nat, |i: int| self.tasks@[i]->0@)
    }
}

/// There are never more ready tasks than tasks.
pub proof fn lemma_ready_tasks_len(tasks: Seq<TaskView>)
    ensures
        ready_tasks(tasks).len() <= tasks.len(),
    decreases tasks.len(),
{
    if tasks.len() > 0 {
        lemma_ready_tasks_len(tasks.drop_last());
    }
}

/// No task is ready after a run.
pub proof fn lemma_no_ready_after_run(tasks: Seq<TaskView>)
    ensures
        ready_tasks(tasks.map_values(|t: TaskView| after_run(t))).len() == 0,
    decreases tasks.len(),
{
    let done = tasks.map_values(|t: TaskView| after_run(t));
    if tasks.len() > 0 {
        lemma_no_ready_after_run(tasks.drop_last());
        assert(done.drop_last() =~= tasks.drop_last().map_values(|t: TaskView| after_run(t)));
    }
}

/// Running the tasks a second time changes none of them.
pub proof fn lemma_after_run_idempotent(tasks: Seq<TaskView>)
    ensures
        tasks.map_values(|t: TaskView| after_run(t)).map_values(|t: TaskView| after_run(t))
            == tasks.map_values(|t: TaskView| after_run(t)),
{
    assert(tasks.map_values(|t: TaskView| after_run(t)).map_values(|t: TaskView| after_run(t))
        =~= tasks.map_values(|t: TaskView| after_run(t)));
}

/// A number for each priority: the higher the priority, the larger.
pub open spec fn priority_rank(p: TaskPriority) -> int {
    match p {
        TaskPriority::Low => 0,
        TaskPriority::Normal => 1,
        TaskPriority::High => 2,
    }
}

/// The ready tasks of `tasks` that have priority `p`, in order.
pub open spec fn ready_with_priority(tasks: Seq<TaskView>, p: TaskPriority) -> Seq<TaskView>
    decreases tasks.len(),
{
    if tasks.len() == 0 {
        Seq::empty()
    } else {
        let before = ready_with_priority(tasks.drop_last(), p);
        if tasks.last().state == TaskState::Ready && tasks.last().priority == p {
            before.push(tasks.last())
        } else {
            before
        }
    }
}

/// The order in which a run runs the tasks: the ready tasks, sorted by
/// priority from high to low, tasks of equal priority in slot order.
pub open spec fn run_order(tasks: Seq<TaskView>) -> Seq<TaskView> {
    ready_with_priority(tasks, TaskPriority::High) + ready_with_priority(
        tasks,
        TaskPriority::Normal,
    ) + ready_with_priority(tasks, TaskPriority::Low)
}

/// A task as a pass over priority `p` leaves it: a ready task of that
/// priority has run and is terminated, any other task is as it was.
pub open spec fn run_if(t: TaskView, p: TaskPriority) -> TaskView {
    if t.state == TaskState::Ready && t.priority == p {
        terminated(t)
    } else {
        t
    }
}

/// There are never more ready tasks of one priority than tasks.
proof fn lemma_ready_with_priority_len(tasks: Seq<TaskView>, p: TaskPriority)
    ensures
        ready_with_priority(tasks, p).len() <= tasks.len(),
    decreases tasks.len(),
{
    if tasks.len() > 0 {
        lemma_ready_with_priority_len(tasks.drop_last(), p);
    }
}

/// Taking one more task adds it to the ready tasks of priority `p` exactly
/// when it is ready and of that priority.
proof fn lemma_ready_with_priority_take_step(tasks: Seq<TaskView>, p: TaskPriority, i: int)
    requires
        0 <= i < tasks.len(),
    ensures
        ready_with_priority(tasks.take(i + 1), p) == (if tasks[i].state == TaskState::Ready
            && tasks[i].priority == p {
            ready_with_priority(tasks.take(i), p).push(tasks[i])
        } else {
            ready_with_priority(tasks.take(i), p)
        }),
{
    assert(tasks.take(i + 1).drop_last() =~= tasks.take(i));
}

/// A prefix has no more ready tasks of priority `p` than the whole sequence.
proof fn lemma_ready_with_priority_prefix_len(tasks: Seq<TaskView>, p: TaskPriority, i: int)
    requires
        0 <= i <= tasks.len(),
    ensures
        ready_with_priority(tasks.take(i), p).len() <= ready_with_priority(tasks, p).len(),
    decreases tasks.len() - i,
{
    if i < tasks.len() {
        lemma_ready_with_priority_take_step(tasks, p, i);
        lemma_ready_with_priority_prefix_len(tasks, p, i + 1);
    } else {
        assert(tasks.take(i) =~= tasks);
    }
}

/// A pass over one priority leaves the ready tasks of another priority as
/// they were.
proof fn lemma_other_priority_unaffected(tasks: Seq<TaskView>, p: TaskPriority, q: TaskPriority)
    requires
        p != q,
    ensures
        ready_with_priority(tasks.map_values(|t: TaskView| run_if(t, q)), p)
            == ready_with_priority(tasks, p),
    decreases tasks.len(),
{
    if tasks.len() > 0 {
        lemma_other_priority_unaffected(tasks.drop_last(), p, q);
        assert(tasks.map_values(|t: TaskView| run_if(t, q)).drop_last() =~= tasks.drop_last().map_values(
            |t: TaskView| run_if(t, q),
        ));
    }
}

/// A run runs exactly the ready tasks: as many as there are.
pub proof fn lemma_run_order_len(tasks: Seq<TaskView>)
    ensures
        run_order(tasks).len() == ready_tasks(tasks).len(),
    decreases tasks.len(),
{
    if tasks.len() > 0 {
        lemma_run_order_len(tasks.drop_last());
    }
}

/// Every task of `ready_with_priority(tasks, p)` is ready and has priority
/// `p`.
pub proof fn lemma_ready_with_priority_members(tasks: Seq<TaskView>, p: TaskPriority)
    ensures
        forall|k: int|
            0 <= k < ready_with_priority(tasks, p).len() ==> (#[trigger] ready_with_priority(
                tasks,
                p,
            )[k]).priority == p && ready_with_priority(tasks, p)[k].state == TaskState::Ready,
    decreases tasks.len(),
{
    if tasks.len() > 0 {
        lemma_ready_with_priority_members(tasks.drop_last(), p);
    }
}

/// A run runs tasks in order of non-increasing priority, and every task
/// that it runs is ready.
pub proof fn lemma_run_order_by_priority(tasks: Seq<TaskView>)
    ensures
        forall|a: int, b: int|
            0 <= a < b < run_order(tasks).len() ==> priority_rank(
                (#[trigger] run_order(tasks)[a]).priority,
            ) >= priority_rank((#[trigger] run_order(tasks)[b]).priority),
        forall|k: int|
            0 <= k < run_order(tasks).len() ==> (#[trigger] run_order(tasks)[k]).state
                == TaskState::Ready,
{
    lemma_ready_with_priority_members(tasks, TaskPriority::High);
    lemma_ready_with_priority_members(tasks, TaskPriority::Normal);
    lemma_ready_with_priority_members(tasks, TaskPriority::Low);
    let h = ready_with_priority(tasks, TaskPriority::High);
    let n = ready_with_priority(tasks, TaskPriority::Normal);
    let l = ready_with_priority(tasks, TaskPriority::Low);
    let o = run_order(tasks);
    assert forall|k: int| 0 <= k < o.len() implies priority_rank((#[trigger] o[k]).priority) == (
    if k < h.len() {
        2int
    } else if k < h.len() + n.len() {
        1int
    } else {
        0int
    }) && o[k].state == TaskState::Ready by {
        if k < h.len() {
            assert(o[k] == h[k]);
        } else if k < h.len() + n.len() {
            assert(o[k] == n[k - h.len()]);
        } else {
            assert(o[k] == l[k - h.len() - n.len()]);
        }
    }
}

impl SimpleBatchSystem {
    /// The system's slots hold its tasks first and nothing after them.
    pub closed spec fn wf(&self) -> bool {
        &&& self.tasks@.len() == MAX_TASKS
        &&& self.task_count <= MAX_TASKS
        &&& forall|i: int| 0 <= i < self.task_count ==> self.tasks@[i] is Some
        &&& forall|i: int| self.task_count <= i < MAX_TASKS ==> self.tasks@[i] is None
    }

    /// An empty batch system.
    pub fn new() -> (r: Self)
        ensures
            r.wf(),
            r@ == Seq::<TaskView>::empty(),
    {
        let mut tasks: Vec<Option<Task>> = Vec::new();
        let mut i: usize = 0;
        while i < MAX_TASKS
            invariant
                i <= MAX_TASKS,
                tasks@.len() == i,
                forall|j: int| 0 <= j < i ==> tasks@[j] is None,
            decreases MAX_TASKS - i,
        {
            tasks.push(None);
            i = i + 1;
        }
        let r = SimpleBatchSystem { tasks, task_count: 0, current_index: 0 };
        assert(r@ =~= Seq::<TaskView>::empty());
        r
    }

    /// How many tasks the system holds.
    pub fn task_count(&self) -> (r: usize)
        requires
            self.wf(),
        ensures
            r == self@.len(),
            r <= MAX_TASKS,
    {
        self.task_count
    }

    /// A system never holds more than `MAX_TASKS` tasks.
    pub proof fn lemma_at_most_max_tasks(&self)
        requires
            self.wf(),
        ensures
            self@.len() <= MAX_TASKS,
    {
    }

    /// Adds `task` to the first free slot. Fails with "任务队列已满" (the
    /// queue is full) when every slot holds a task; the system is then
    /// unchanged.
    pub fn add_task(&mut self, task: Task) -> (r: Result<(), &'static str>)
        requires
            old(self).wf(),
        ensures
            final(self).wf(),
            old(self)@.len() < MAX_TASKS ==> r == Ok::<(), &'static str>(()) && final(self)@
                == old(self)@.push(task@),
            old(self)@.len() >= MAX_TASKS ==> r == Err::<(), &'static str>("任务队列已满")
                && final(self)@ == old(self)@,
    {
        if self.task_count >= MAX_TASKS {
            return Err("任务队列已满");
        }
        let mut i: usize = 0;
        while i < MAX_TASKS
            invariant
                self.wf(),
                *self == *old(self),
                self.task_count < MAX_TASKS,
                i <= MAX_TASKS,
                forall|j: int| 0 <= j < i ==> self.tasks@[j] is Some,
            decreases MAX_TASKS - i,
        {
            if self.tasks[i].is_none() {
                assert(self.tasks@[i as int] is None);
                assert(self.tasks@[self.task_count as int] is None);
                assert(i == self.task_count);
                self.tasks[i] = Some(task);
                self.task_count = self.task_count + 1;
                assert(self@ =~= old(self)@.push(task@));
                return Ok(());
            }
            i = i + 1;
        }
        assert(self.tasks@[self.task_count as int] is None);
        Err("无法添加任务")
    }

    /// Runs, once, every ready task of priority `priority`, in slot order,
    /// and leaves it terminated; all other tasks are left as they are. Each
    /// run is recorded after the records already in `executions`, and
    /// counted in `completed`.
    fn run_priority(
        &mut self,
        priority: TaskPriority,
        executions: &mut Vec<TaskExecution>,
        completed: &mut usize,
    )
        requires
            old(self).wf(),
            *old(completed) + ready_with_priority(old(self)@, priority).len() <= MAX_TASKS,
        ensures
            final(self).wf(),
            final(self)@ == old(self)@.map_values(|t: TaskView| run_if(t, priority)),
            *final(completed) == *old(completed) + ready_with_priority(old(self)@, priority).len(),
            final(executions)@.len() == old(executions)@.len() + ready_with_priority(
                old(self)@,
                priority,
            ).len(),
            forall|k: int|
                0 <= k < old(executions)@.len() ==> #[trigger] final(executions)@[k] == old(
                    executions,
                )@[k],
            forall|k: int|
                0 <= k < ready_with_priority(old(self)@, priority).len() ==> records_run_of(
                    #[trigger] final(executions)@[old(executions)@.len() + k],
                    ready_with_priority(old(self)@, priority)[k],
                ),
    {
        let ghost pass_start = self@;
        let ghost completed_before = *completed as int;
        let ghost runs_before = executions@;
        let task_count = self.task_count;
        proof {
            lemma_ready_with_priority_len(pass_start, priority);
        }
        let mut i: usize = 0;
        while i < self.task_count
            invariant
                self.wf(),
                self.task_count == task_count,
                pass_start.len() == task_count,
                i <= task_count,
                self@ == pass_start.take(i as int).map_values(|t: TaskView| run_if(t, priority))
                    + pass_start.skip(i as int),
                *completed == completed_before + ready_with_priority(
                    pass_start.take(i as int),
                    priority,
                ).len(),
                completed_before + ready_with_priority(pass_start, priority).len() <= MAX_TASKS,
                executions@.len() == runs_before.len() + ready_with_priority(
                    pass_start.take(i as int),
                    priority,
                ).len(),
                forall|k: int| 0 <= k < runs_before.len() ==> executions@[k] == runs_before[k],
                forall|k: int|
                    0 <= k < ready_with_priority(pass_start.take(i as int), priority).len()
                        ==> records_run_of(
                        #[trigger] executions@[runs_before.len() + k],
                        ready_with_priority(pass_start.take(i as int), priority)[k],
                    ),
            decreases task_count - i,
        {
            proof {
                lemma_ready_with_priority_take_step(pass_start, priority, i as int);
                lemma_ready_with_priority_prefix_len(pass_start, priority, i as int + 1);
            }
            let ghost before = self@;
            let ghost slots_before = self.tasks@;
            assert(before[i as int] == pass_start[i as int]);
            assert(slots_before[i as int] is Some);
            match &mut self.tasks[i] {
                Some(task) => {
                    if task.state() == TaskState::Ready && task.priority() == priority {
                        let output = task.execute();
                        executions.push(TaskExecution { id: task.id(), name: task.name(), output });
                        *completed = *completed + 1;
                    }
                },
                None => {},
            }
            proof {
                let next = pass_start.take(i as int + 1).map_values(
                    |t: TaskView| run_if(t, priority),
                ) + pass_start.skip(i as int + 1);
                assert(self.tasks@[i as int]->0@ == run_if(slots_before[i as int]->0@, priority));
                assert forall|j: int| 0 <= j < task_count implies #[trigger] self@[j] == next[j] by {
                    assert(self@[j] == self.tasks@[j]->0@);
                    assert(before[j] == slots_before[j]->0@);
                    if j < i {
                        assert(before[j] == run_if(pass_start[j], priority));
                    } else if j > i {
                        assert(before[j] == pass_start[j]);
                    }
                }
                assert(self@ =~= next);
            }
            i = i + 1;
        }
        proof {
            assert(pass_start.take(task_count as int) =~= pass_start);
            assert(self@ =~= pass_start.map_values(|t: TaskView| run_if(t, priority)));
        }
    }

    /// Runs every ready task once, highest priority first and, among tasks
    /// of equal priority, in the order in which they were added, and leaves
    /// it terminated; tasks that are not ready are left as they are. The
    /// report counts the tasks held and the tasks run, and records each run
    /// in the order in which the tasks ran.
    pub fn run(&mut self) -> (report: RunReport)
        requires
            old(self).wf(),
        ensures
            final(self).wf(),
            final(self)@ == old(self)@.map_values(|t: TaskView| after_run(t)),
            report.task_count == old(self)@.len(),
            report.completed == ready_tasks(old(self)@).len(),
            records_runs_of(report.executions@, run_order(old(self)@)),
    {
        let task_count = self.task_count;
        let mut completed: usize = 0;
        let mut executions: Vec<TaskExecution> = Vec::new();
        let ghost s0 = self@;
        let ghost high = ready_with_priority(s0, TaskPriority::High);
        let ghost normal = ready_with_priority(s0, TaskPriority::Normal);
        let ghost low = ready_with_priority(s0, TaskPriority::Low);
        proof {
            lemma_run_order_len(s0);
            lemma_ready_tasks_len(s0);
        }
        self.run_priority(TaskPriority::High, &mut executions, &mut completed);
        let ghost s1 = self@;
        let ghost e1 = executions@;
        proof {
            lemma_other_priority_unaffected(s0, TaskPriority::Normal, TaskPriority::High);
            lemma_other_priority_unaffected(s0, TaskPriority::Low, TaskPriority::High);
        }
        self.run_priority(TaskPriority::Normal, &mut executions, &mut completed);
        let ghost e2 = executions@;
        proof {
            lemma_other_priority_unaffected(s1, TaskPriority::Low, TaskPriority::Normal);
        }
        self.run_priority(TaskPriority::Low, &mut executions, &mut completed);
        proof {
            assert(self@ =~= s0.map_values(|t: TaskView| after_run(t)));
            let order = run_order(s0);
            assert(order == high + normal + low);
            assert forall|k: int| 0 <= k < executions@.len() implies records_run_of(
                #[trigger] executions@[k],
                order[k],
            ) by {
                if k < high.len() {
                    assert(order[k] == high[k]);
                    assert(e1[0 + k] == e1[k]);
                    assert(e2[k] == e1[k]);
                    assert(executions@[k] == e2[k]);
                } else if k < high.len() + normal.len() {
                    assert(order[k] == normal[k - high.len()]);
                    assert(e2[high.len() + (k - high.len())] == e2[k]);
                    assert(executions@[k] == e2[k]);
                } else {
                    assert(order[k] == low[k - high.len() - normal.len()]);
                    assert(executions@[high.len() + normal.len() + (k - high.len() - normal.len())]
                        == executions@[k]);
                }
            }
        }
        RunReport { task_count, executions, completed }
    }
}

/// Makes an empty batch system.
pub fn init() -> (r: SimpleBatchSystem)
    ensures
        r.wf(),
        r@ == Seq::<TaskView>::empty(),
{
    SimpleBatchSystem::new()
}

/// Where every task is ready (as every freshly made task is), a run runs
/// all of them, in order.
pub proof fn lemma_all_ready_all_run(tasks: Seq<TaskView>)
    requires
        forall|k: int| 0 <= k < tasks.len() ==> #[trigger] tasks[k].state == TaskState::Ready,
    ensures
        ready_tasks(tasks) == tasks,
    decreases tasks.len(),
{
    if tasks.len() > 0 {
        lemma_all_ready_all_run(tasks.drop_last());
        assert(tasks.drop_last().push(tasks.last()) =~= tasks);
    }
}

/// The identifier that an allocator at `id` hands out after `k` more
/// allocations.
pub open spec fn id_after(id: usize, k: nat) -> usize
    decreases k,
{
    if k == 0 {
        id
    } else {
        next_id(id_after(id, (k - 1) as nat))
    }
}

/// As long as the identifiers do not wrap around, each allocation hands
/// out an identifier one larger than the one before: after `k` more
/// allocations the identifier is `k` larger.
pub proof fn lemma_ids_count_up(id: usize, k: nat)
    requires
        id + k <= usize::MAX,
    ensures
        id_after(id, k) == id + k,
    decreases k,
{
    if k > 0 {
        lemma_ids_count_up(id, (k - 1) as nat);
    }
}

/// As long as the identifiers do not wrap around, a later allocation hands
/// out a larger identifier than an earlier one, so no identifier is handed
/// out twice.
pub proof fn lemma_ids_increase(id: usize, i: nat, j: nat)
    requires
        i < j,
        id + j <= usize::MAX,
    ensures
        id_after(id, i) < id_after(id, j),
{
    lemma_ids_count_up(id, i);
    lemma_ids_count_up(id, j);
}

/// Two identifiers handed out one after the other differ.
pub proof fn lemma_next_id_differs(id: usize)
    ensures
        next_id(id) != id,
{
}


/// The `fibonacci` program reports ten terms that start 1, 1 and in which
/// every further term is the sum of the two before it.
pub proof fn lemma_fibonacci_terms_recurrence()
    ensures
        fibonacci_terms().len() == 10,
        fibonacci_terms()[0] == 1,
        fibonacci_terms()[1] == 1,
        forall|k: int|
            0 <= k < 8 ==> #[trigger] fibonacci_terms()[k + 2] == fibonacci_terms()[k]
                + fibonacci_terms()[k + 1],
{
    assert(fib(11) == 89) by {
        reveal_with_fuel(fib, 12);
    }
    assert forall|k: int| 0 <= k < 8 implies #[trigger] fibonacci_terms()[k + 2]
        == fibonacci_terms()[k] + fibonacci_terms()[k + 1] by {
        lemma_fib_monotone((k + 3) as nat, 11);
        lemma_fib_monotone((k + 2) as nat, 11);
        lemma_fib_monotone((k + 1) as nat, 11);
    }
    assert(fib(1) == 1);
    assert(fib(2) == 1) by {
        reveal_with_fuel(fib, 3);
    }
}

/// The two known programs: "hello_world" greets, "fibonacci" reports its
/// terms (and nothing else); any other name gives no known program.
pub proof fn lemma_known_programs(name: Seq<char>, out: ProgramOutput)
    ensures
        name == "hello_world"@ ==> (output_of(name, out) <==> out == ProgramOutput::HelloWorld),
        name == "fibonacci"@ ==> (output_of(name, out) <==> (out matches ProgramOutput::Fibonacci(
            terms,
        ) && terms@ == fibonacci_terms())),
        name != "hello_world"@ && name != "fibonacci"@ ==> (output_of(name, out) <==> out
            == ProgramOutput::Unknown),
{
    reveal_strlit("hello_world");
    reveal_strlit("fibonacci");
    assert("hello_world"@ != "fibonacci"@) by {
        assert("hello_world"@.len() != "fibonacci"@.len());
    }
}

/// A run changes nothing of a task but its state: a ready task becomes
/// terminated, a task in any other state keeps it.
pub proof fn lemma_after_run_fields(t: TaskView)
    ensures
        after_run(t).state == (if t.state == TaskState::Ready {
            TaskState::Terminated
        } else {
            t.state
        }),
        after_run(t).id == t.id,
        after_run(t).name == t.name,
        after_run(t).priority == t.priority,
        after_run(t).code == t.code,
        after_run(t).context == t.context,
        after_run(t).kernel_stack == t.kernel_stack,
        after_run(t).kernel_context == t.kernel_context,
{
}

/// Every ready task is among the tasks that a run runs.
pub proof fn lemma_run_order_contains_ready(tasks: Seq<TaskView>, i: int)
    requires
        0 <= i < tasks.len(),
        tasks[i].state == TaskState::Ready,
    ensures
        run_order(tasks).contains(tasks[i]),
{
    lemma_ready_with_priority_contains(tasks, tasks[i].priority, i);
    let h = ready_with_priority(tasks, TaskPriority::High);
    let n = ready_with_priority(tasks, TaskPriority::Normal);
    let l = ready_with_priority(tasks, TaskPriority::Low);
    let o = run_order(tasks);
    match tasks[i].priority {
        TaskPriority::High => {
            let k = choose|k: int| 0 <= k < h.len() && h[k] == tasks[i];
            assert(o[k] == h[k]);
        },
        TaskPriority::Normal => {
            let k = choose|k: int| 0 <= k < n.len() && n[k] == tasks[i];
            assert(o[h.len() + k] == n[k]);
        },
        TaskPriority::Low => {
            let k = choose|k: int| 0 <= k < l.len() && l[k] == tasks[i];
            assert(o[h.len() + n.len() + k] == l[k]);
        },
    }
}

/// A ready task of priority `p` is among the ready tasks of priority `p`.
proof fn lemma_ready_with_priority_contains(tasks: Seq<TaskView>, p: TaskPriority, i: int)
    requires
        0 <= i < tasks.len(),
        tasks[i].state == TaskState::Ready,
        tasks[i].priority == p,
    ensures
        ready_with_priority(tasks, p).contains(tasks[i]),
    decreases tasks.len(),
{
    let r = ready_with_priority(tasks, p);
    if i == tasks.len() - 1 {
        assert(r[r.len() - 1] == tasks[i]);
    } else {
        lemma_ready_with_priority_contains(tasks.drop_last(), p, i);
        let prev = ready_with_priority(tasks.drop_last(), p);
        let k = choose|k: int| 0 <= k < prev.len() && prev[k] == tasks.drop_last()[i];
        assert(r[k] == prev[k]);
    }
}

} // verus!
