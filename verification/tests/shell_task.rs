use std::task::Waker;

use tm_os::interrupts::{keyboard_interrupt_handler, timer_interrupt_handler};
use tm_os::task::keyboard::{
    execute_command, Key, ScancodeStream, ShellContext, ShellState, ShellTask,
};
use tm_os::task::simple_executor::{RunStep, SimpleExecutor};
use tm_os::task::{Poll, Suspendable, Task};
use tm_os::ticks::TickCounter;
use tm_os::vga_buffer::{Writer, BUFFER_WIDTH};

fn context() -> ShellContext {
    ShellContext {
        stream: ScancodeStream::new(),
        ticks: TickCounter::new(),
        writer: Writer::new(),
        waker: Waker::noop().clone(),
    }
}

fn task_row(writer: &Writer, row: usize) -> String {
    let line: String =
        (0..BUFFER_WIDTH).map(|col| writer.cell(row, col).ascii_character as char).collect();
    line.trim_end().to_string()
}

fn run(line: &str, ticks: &TickCounter, writer: &mut Writer) -> bool {
    let chars: Vec<char> = line.chars().collect();
    execute_command(&chars, ticks, writer).is_some()
}

fn type_keys(task: &mut ShellTask, cx: &mut ShellContext, text: &str) {
    for c in text.chars() {
        task.handle_key(Key::Unicode(c), &cx.ticks, &mut cx.writer);
    }
}

#[test]
fn scenario_three_keyboard_interrupts_type_an_a() {
    let mut cx = context();
    let mut task = ShellTask::new();
    assert_eq!(task.poll(&mut cx), Poll::Pending);
    assert_eq!(task_row(&cx.writer, 24), ">");
    for scancode in [0x1e, 0x1e, 0x9e] {
        let done = keyboard_interrupt_handler(&mut cx.stream, scancode);
        assert_eq!(done.vector, 33);
    }
    assert!(task.buffer().is_empty());
    assert_eq!(task.poll(&mut cx), Poll::Pending);
    assert!(!task.buffer().is_empty());
    assert!(task.buffer().iter().all(|&c| c == 'a'));
    assert_eq!(task.buffer().last(), Some(&'a'));
    // the second make code is the key repeating while it is held
    assert_eq!(task.buffer(), &vec!['a', 'a']);
    assert_eq!(task_row(&cx.writer, 24), "> aa");
}

#[test]
fn one_press_and_release_types_one_character() {
    let mut cx = context();
    let mut task = ShellTask::new();
    for scancode in [0x1e, 0x9e] {
        let _ = keyboard_interrupt_handler(&mut cx.stream, scancode);
    }
    assert_eq!(task.poll(&mut cx), Poll::Pending);
    assert_eq!(task.buffer(), &vec!['a']);
    assert_eq!(task_row(&cx.writer, 24), "> a");
}

#[test]
fn the_shell_task_runs_in_the_executor_and_never_completes() {
    let mut cx = context();
    let mut executor = SimpleExecutor::new();
    executor.spawn(Task::new(ShellTask::new()));
    for _ in 0..5 {
        assert_eq!(executor.step(&mut cx), RunStep::Polled(Poll::Pending));
    }
    for scancode in [0x26, 0xa6, 0x1f, 0x9f, 0x1c, 0x9c] {
        let _ = keyboard_interrupt_handler(&mut cx.stream, scancode);
    }
    assert_eq!(executor.step(&mut cx), RunStep::Polled(Poll::Pending));
    assert_eq!(task_row(&cx.writer, 22), "> ls");
    assert_eq!(task_row(&cx.writer, 23), "Files: readme.txt  hello.rs");
    assert_eq!(task_row(&cx.writer, 24), ">");
}

#[test]
fn the_prompt_is_shown_once_at_the_first_poll() {
    let mut cx = context();
    let mut task = ShellTask::new();
    assert!(matches!(task.state(), ShellState::Start));
    assert_eq!(task.poll(&mut cx), Poll::Pending);
    assert!(matches!(task.state(), ShellState::Reading));
    assert_eq!(task.poll(&mut cx), Poll::Pending);
    assert_eq!(task_row(&cx.writer, 24), ">");
    assert_eq!(cx.writer.column_position(), 2);
}

#[test]
fn editing_keys_change_the_line() {
    let mut cx = context();
    let mut task = ShellTask::new();
    type_keys(&mut task, &mut cx, "cat");
    assert_eq!(task.buffer(), &vec!['c', 'a', 't']);
    task.handle_key(Key::Unicode('\u{0008}'), &cx.ticks, &mut cx.writer);
    assert_eq!(task.buffer(), &vec!['c', 'a']);
    task.handle_key(Key::Backspace, &cx.ticks, &mut cx.writer);
    task.handle_key(Key::Other, &cx.ticks, &mut cx.writer);
    assert_eq!(task.buffer(), &vec!['c', 'a']);
    assert_eq!(task_row(&cx.writer, 24), "ca");
}

#[test]
fn the_return_key_enters_the_line() {
    let mut cx = context();
    let mut task = ShellTask::new();
    type_keys(&mut task, &mut cx, "sum 10");
    task.handle_key(Key::Return, &cx.ticks, &mut cx.writer);
    assert!(task.buffer().is_empty());
    assert_eq!(task_row(&cx.writer, 22), "sum 10");
    assert_eq!(task_row(&cx.writer, 23), "Sum: 55");
    assert_eq!(task_row(&cx.writer, 24), ">");
}

#[test]
fn the_sleep_command_suspends_the_task_until_the_deadline() {
    let mut cx = context();
    let mut task = ShellTask::new();
    assert_eq!(task.poll(&mut cx), Poll::Pending);
    let _ = timer_interrupt_handler(&mut cx.ticks);
    type_keys(&mut task, &mut cx, "sleep 3");
    task.handle_key(Key::Unicode('\n'), &cx.ticks, &mut cx.writer);
    assert!(matches!(task.state(), ShellState::Sleeping(_)));
    assert_eq!(task.buffer().len(), 7);
    // a key typed during the sleep waits in the queue
    let _ = keyboard_interrupt_handler(&mut cx.stream, 0x1e);
    for _ in 0..2 {
        let _ = timer_interrupt_handler(&mut cx.ticks);
        assert_eq!(task.poll(&mut cx), Poll::Pending);
        assert!(matches!(task.state(), ShellState::Sleeping(_)));
        assert_eq!(task_row(&cx.writer, 24), "");
    }
    let _ = timer_interrupt_handler(&mut cx.ticks);
    assert_eq!(cx.ticks.now(), 4);
    assert_eq!(task.poll(&mut cx), Poll::Pending);
    assert!(matches!(task.state(), ShellState::Reading));
    assert_eq!(task.buffer(), &vec!['a']);
    assert_eq!(task_row(&cx.writer, 24), "> a");
}

#[test]
fn sleep_of_zero_or_without_a_number_does_not_suspend() {
    let mut cx = context();
    let mut task = ShellTask::new();
    assert_eq!(task.poll(&mut cx), Poll::Pending);
    type_keys(&mut task, &mut cx, "sleep x");
    task.handle_key(Key::Return, &cx.ticks, &mut cx.writer);
    assert!(matches!(task.state(), ShellState::Reading));
    type_keys(&mut task, &mut cx, "sleep 0");
    task.handle_key(Key::Return, &cx.ticks, &mut cx.writer);
    assert_eq!(task.poll(&mut cx), Poll::Pending);
    assert!(matches!(task.state(), ShellState::Reading));
    assert!(task.buffer().is_empty());
}

#[test]
fn commands_of_the_shell_task() {
    let ticks = TickCounter::new();
    let mut writer = Writer::new();
    assert!(!run("help", &ticks, &mut writer));
    assert_eq!(
        task_row(&writer, 23),
        "Commands: ls, cat <file>, help, clear, uptime, sum <n>, sleep <ms>"
    );
    assert!(!run("ls", &ticks, &mut writer));
    assert_eq!(task_row(&writer, 23), "Files: readme.txt  hello.rs");
    assert!(!run("cat readme.txt", &ticks, &mut writer));
    assert_eq!(task_row(&writer, 22), "Tm_Os v0.11");
    assert_eq!(task_row(&writer, 23), "Embedded RamFS is active!");
    assert!(!run("cat   hello.rs  ", &ticks, &mut writer));
    assert_eq!(task_row(&writer, 21), "fn main() {");
    assert_eq!(task_row(&writer, 22), "    println!(\"Hello from RamFS!\");");
    assert_eq!(task_row(&writer, 23), "}");
    assert!(!run("cat nothing", &ticks, &mut writer));
    assert_eq!(task_row(&writer, 23), "File not found: nothing");
    assert!(!run("cat", &ticks, &mut writer));
    assert_eq!(task_row(&writer, 23), "File not found:");
    assert!(!run("sum 100", &ticks, &mut writer));
    assert_eq!(task_row(&writer, 23), "Sum: 5050");
    assert!(!run("what is this", &ticks, &mut writer));
    assert_eq!(task_row(&writer, 23), "Unknown command: what");
    assert!(!run("echo hi", &ticks, &mut writer));
    assert_eq!(task_row(&writer, 23), "Unknown command: echo");
}

#[test]
fn commands_that_write_nothing() {
    let ticks = TickCounter::new();
    let mut writer = Writer::new();
    writer.write_string("mark");
    for line in ["", "   ", "sum", "sum abc", "sleep", "sleep -3"] {
        assert!(!run(line, &ticks, &mut writer));
        assert_eq!(task_row(&writer, 24), "mark");
        assert_eq!(task_row(&writer, 23), "");
    }
    assert!(run("sleep 5", &ticks, &mut writer));
    assert!(run("  sleep 0", &ticks, &mut writer));
    assert_eq!(task_row(&writer, 24), "mark");
}

#[test]
fn uptime_prints_the_tick_counter() {
    let mut ticks = TickCounter::new();
    let mut writer = Writer::new();
    for _ in 0..1234 {
        ticks.advance();
    }
    assert!(!run("uptime", &ticks, &mut writer));
    assert_eq!(task_row(&writer, 23), "Ticks: 1234");
}

#[test]
fn the_sleep_command_starts_at_the_present_tick() {
    let mut ticks = TickCounter::new();
    let mut writer = Writer::new();
    for _ in 0..10 {
        ticks.advance();
    }
    let chars: Vec<char> = "sleep 2".chars().collect();
    let nap = execute_command(&chars, &ticks, &mut writer).expect("a sleep");
    assert_eq!(nap.poll(&ticks), Poll::Pending);
    ticks.advance();
    assert_eq!(nap.poll(&ticks), Poll::Pending);
    ticks.advance();
    assert_eq!(nap.poll(&ticks), Poll::Ready(()));
}

#[test]
fn clear_in_the_shell_task_empties_the_console() {
    let ticks = TickCounter::new();
    let mut writer = Writer::new();
    writer.write_string("a\nb\nc");
    assert!(!run("clear", &ticks, &mut writer));
    for row in 0..25 {
        assert_eq!(task_row(&writer, row), "");
    }
    assert_eq!(writer.column_position(), 0);
}
