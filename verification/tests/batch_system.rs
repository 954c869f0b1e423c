use batch_kernel::context::{
    TaskContext, INTERRUPT_FLAG, KERNEL_CODE_SELECTOR, KERNEL_DATA_SELECTOR, USER_CODE_SELECTOR,
    USER_DATA_SELECTOR,
};
use batch_kernel::simple_batch::{
    init, ProgramOutput, SimpleBatchSystem, Task, TaskIdAllocator, TaskPriority, TaskState,
    MAX_TASKS, USER_CODE_START, USER_STACK_SIZE, USER_STACK_START,
};

static HELLO_CODE: [u8; 13] = *b"Hello, World!";
static FIB_CODE: [u8; 10] = *b"Fibonacci!";

#[test]
fn ids_start_at_one_and_count_up() {
    let mut ids = TaskIdAllocator::new();
    assert_eq!(ids.allocate(), 1);
    assert_eq!(ids.allocate(), 2);
    assert_eq!(ids.allocate(), 3);
}

#[test]
fn task_count_never_exceeds_slots() {
    let mut system = SimpleBatchSystem::new();
    let mut ids = TaskIdAllocator::new();
    assert_eq!(system.task_count(), 0);
    for _ in 0..(MAX_TASKS + 3) {
        let task = Task::new(&mut ids, "hello_world", TaskPriority::Low, &HELLO_CODE);
        let _ = system.add_task(task);
        assert!(system.task_count() <= MAX_TASKS);
    }
    assert_eq!(system.task_count(), MAX_TASKS);
}

#[test]
fn new_task_is_ready_with_fresh_contexts() {
    let mut ids = TaskIdAllocator::new();
    let task = Task::new(&mut ids, "hello_world", TaskPriority::Normal, &HELLO_CODE);
    assert_eq!(task.id(), 1);
    assert_eq!(task.name(), "hello_world");
    assert_eq!(task.state(), TaskState::Ready);
    assert_eq!(task.priority(), TaskPriority::Normal);
    assert_eq!(task.code(), &HELLO_CODE[..]);
    let next = Task::new(&mut ids, "fibonacci", TaskPriority::High, &FIB_CODE);
    assert_eq!(next.id(), 2);
    assert_eq!(next.priority(), TaskPriority::High);
}

#[test]
fn user_and_kernel_contexts() {
    let kernel = TaskContext::new_kernel();
    assert_eq!(kernel.rip, 0);
    assert_eq!(kernel.rsp, 0);
    assert_eq!(kernel.rflags, 0x200);
    assert_eq!(kernel.rflags, INTERRUPT_FLAG);
    assert_eq!(kernel.cs, KERNEL_CODE_SELECTOR);
    assert_eq!(kernel.ss, KERNEL_DATA_SELECTOR);
    assert_eq!(kernel.cs, 0x8);
    assert_eq!(kernel.ss, 0x10);
    assert_eq!(kernel.rax, 0);
    assert_eq!(kernel.r15, 0);

    let entry = batch_kernel::addr::VirtAddr::new(USER_CODE_START);
    let stack = batch_kernel::addr::VirtAddr::new(USER_STACK_START + USER_STACK_SIZE as u64);
    let user = TaskContext::new_user(entry, stack);
    assert_eq!(user.rip, 0x400000);
    assert_eq!(user.rsp, 0x802000);
    assert_eq!(user.rflags, 0x200);
    assert_eq!(user.cs, USER_CODE_SELECTOR);
    assert_eq!(user.ss, USER_DATA_SELECTOR);
    assert_eq!(user.cs, 0x1b);
    assert_eq!(user.ss, 0x23);
    assert_eq!(user.rbx, 0);
}

#[test]
fn set_state_then_state() {
    let mut ids = TaskIdAllocator::new();
    let mut task = Task::new(&mut ids, "x", TaskPriority::Low, &HELLO_CODE);
    task.set_state(TaskState::Running);
    assert_eq!(task.state(), TaskState::Running);
    task.set_state(TaskState::Terminated);
    assert_eq!(task.state(), TaskState::Terminated);
    assert_eq!(task.name(), "x");
}

#[test]
fn execute_hello_world() {
    let mut ids = TaskIdAllocator::new();
    let mut task = Task::new(&mut ids, "hello_world", TaskPriority::Normal, &HELLO_CODE);
    assert_eq!(task.execute(), ProgramOutput::HelloWorld);
    assert_eq!(task.state(), TaskState::Terminated);
}

#[test]
fn execute_fibonacci_reports_ten_terms() {
    let mut ids = TaskIdAllocator::new();
    let mut task = Task::new(&mut ids, "fibonacci", TaskPriority::High, &FIB_CODE);
    assert_eq!(
        task.execute(),
        ProgramOutput::Fibonacci(vec![1, 1, 2, 3, 5, 8, 13, 21, 34, 55])
    );
    assert_eq!(task.state(), TaskState::Terminated);
}

#[test]
fn execute_unknown_program() {
    let mut ids = TaskIdAllocator::new();
    let mut task = Task::new(&mut ids, "hello_worl", TaskPriority::Normal, &HELLO_CODE);
    assert_eq!(task.execute(), ProgramOutput::Unknown);
    assert_eq!(task.state(), TaskState::Terminated);
    let mut longer = Task::new(&mut ids, "fibonacci2", TaskPriority::Normal, &FIB_CODE);
    assert_eq!(longer.execute(), ProgramOutput::Unknown);
    let mut empty = Task::new(&mut ids, "", TaskPriority::Normal, &FIB_CODE);
    assert_eq!(empty.execute(), ProgramOutput::Unknown);
}

#[test]
fn add_task_fills_up_then_refuses() {
    let mut system = SimpleBatchSystem::new();
    let mut ids = TaskIdAllocator::new();
    for _ in 0..MAX_TASKS {
        let task = Task::new(&mut ids, "hello_world", TaskPriority::Normal, &HELLO_CODE);
        assert_eq!(system.add_task(task), Ok(()));
    }
    let extra = Task::new(&mut ids, "hello_world", TaskPriority::Normal, &HELLO_CODE);
    assert_eq!(system.add_task(extra), Err("任务队列已满"));
    let report = system.run();
    assert_eq!(report.task_count, MAX_TASKS);
    assert_eq!(report.completed, MAX_TASKS);
}

#[test]
fn run_executes_ready_tasks_by_priority() {
    let mut system = init();
    let mut ids = TaskIdAllocator::new();
    let hello = Task::new(&mut ids, "hello_world", TaskPriority::Normal, &HELLO_CODE);
    let fib = Task::new(&mut ids, "fibonacci", TaskPriority::High, &FIB_CODE);
    assert_eq!(system.add_task(hello), Ok(()));
    assert_eq!(system.add_task(fib), Ok(()));
    let report = system.run();
    assert_eq!(report.task_count, 2);
    assert_eq!(report.completed, 2);
    assert_eq!(report.executions.len(), 2);
    assert_eq!(report.executions[0].id, 2);
    assert_eq!(report.executions[0].name, "fibonacci");
    assert_eq!(
        report.executions[0].output,
        ProgramOutput::Fibonacci(vec![1, 1, 2, 3, 5, 8, 13, 21, 34, 55])
    );
    assert_eq!(report.executions[1].id, 1);
    assert_eq!(report.executions[1].name, "hello_world");
    assert_eq!(report.executions[1].output, ProgramOutput::HelloWorld);
}

#[test]
fn equal_priorities_run_in_slot_order() {
    let mut system = SimpleBatchSystem::new();
    let mut ids = TaskIdAllocator::new();
    let priorities = [
        TaskPriority::Low,
        TaskPriority::High,
        TaskPriority::Normal,
        TaskPriority::High,
        TaskPriority::Low,
    ];
    for p in priorities {
        let task = Task::new(&mut ids, "hello_world", p, &HELLO_CODE);
        assert_eq!(system.add_task(task), Ok(()));
    }
    let report = system.run();
    let order: Vec<usize> = report.executions.iter().map(|e| e.id).collect();
    assert_eq!(order, vec![2, 4, 3, 1, 5]);
    assert_eq!(report.completed, 5);
}

#[test]
fn run_skips_tasks_that_are_not_ready() {
    let mut system = SimpleBatchSystem::new();
    let mut ids = TaskIdAllocator::new();
    let mut done = Task::new(&mut ids, "hello_world", TaskPriority::Normal, &HELLO_CODE);
    done.set_state(TaskState::Terminated);
    let ready = Task::new(&mut ids, "fibonacci", TaskPriority::Normal, &FIB_CODE);
    assert_eq!(system.add_task(done), Ok(()));
    assert_eq!(system.add_task(ready), Ok(()));
    let report = system.run();
    assert_eq!(report.task_count, 2);
    assert_eq!(report.completed, 1);
    assert_eq!(report.executions.len(), 1);
    assert_eq!(report.executions[0].id, 2);
}

#[test]
fn second_run_runs_nothing() {
    let mut system = SimpleBatchSystem::new();
    let mut ids = TaskIdAllocator::new();
    let hello = Task::new(&mut ids, "hello_world", TaskPriority::Normal, &HELLO_CODE);
    assert_eq!(system.add_task(hello), Ok(()));
    assert_eq!(system.run().completed, 1);
    let again = system.run();
    assert_eq!(again.task_count, 1);
    assert_eq!(again.completed, 0);
    assert!(again.executions.is_empty());
}

#[test]
fn empty_system_runs_nothing() {
    let mut system = SimpleBatchSystem::new();
    let report = system.run();
    assert_eq!(report.task_count, 0);
    assert_eq!(report.completed, 0);
    assert!(report.executions.is_empty());
}
