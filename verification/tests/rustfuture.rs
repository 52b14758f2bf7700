//! Driving the async task bridge the way foreign bindings do: polls store a
//! continuation, wake-ups and drive outcomes answer it, `complete` reports
//! through the call channel.

use std::sync::{Arc, Mutex};

use once_cell::sync::OnceCell;

use uniffi::codec::{lift, Value};
use uniffi::status::{CallOutcome, CallStatus, CallStatusCode};
use uniffi::task::{DriveOutcome, Invocation, PollCode, Task};

// Test error type mirroring a component's domain error.
#[derive(Debug, PartialEq)]
struct TestError(String);

impl From<&str> for TestError {
    fn from(s: &str) -> Self {
        TestError(s.to_string())
    }
}

// A task plus the registry of continuation cells, playing the foreign side.
struct TestFuture<C> {
    task: Mutex<Task<C>>,
    cells: Mutex<Vec<Arc<OnceCell<PollCode>>>>,
}

impl<C> TestFuture<C> {
    fn new(computation: C) -> Arc<Self> {
        Arc::new(TestFuture {
            task: Mutex::new(Task::new(computation)),
            cells: Mutex::new(Vec::new()),
        })
    }

    // Performs an owed continuation invocation: sets the cell registered
    // under the invocation's context word.
    fn deliver(&self, invocation: Option<Invocation>) {
        if let Some(invocation) = invocation {
            let cell = self.cells.lock().unwrap()[invocation.context as usize].clone();
            cell.set(invocation.code).expect("Error setting OnceCell");
        }
    }

    fn wake(&self) {
        let invocation = self.task.lock().unwrap().wake();
        self.deliver(invocation);
    }

    fn cancel(&self) {
        let invocation = self.task.lock().unwrap().cancel();
        self.deliver(invocation);
    }

    fn free(&self) {
        let invocation = self.task.lock().unwrap().free();
        self.deliver(invocation);
    }
}

// Sender/Receiver pair over a shared channel, standing for a host
// computation that finishes when the test sends its result.
struct Channel {
    result: Option<CallOutcome>,
}

struct Sender {
    channel: Arc<Mutex<Channel>>,
    future: Arc<TestFuture<Receiver>>,
}

impl Sender {
    fn wake(&self) {
        self.future.wake();
    }

    fn send(&self, value: Result<String, TestError>) {
        let outcome = match value {
            Ok(s) => CallOutcome::Success(Value::Text(s)),
            Err(TestError(m)) => CallOutcome::DomainError(Value::Text(m)),
        };
        if self
            .channel
            .lock()
            .unwrap()
            .result
            .replace(outcome)
            .is_some()
        {
            panic!("value already sent");
        }
        self.future.wake();
    }

    fn send_lift_args_error(&self, arg_name: &'static str, cause: &str) {
        let outcome = CallOutcome::ConversionFailed {
            arg_name: arg_name.to_string(),
            cause: cause.to_string(),
        };
        if self
            .channel
            .lock()
            .unwrap()
            .result
            .replace(outcome)
            .is_some()
        {
            panic!("value already sent");
        }
        self.future.wake();
    }
}

struct Receiver(Arc<Mutex<Channel>>);

impl Receiver {
    // One drive attempt: ready as soon as a result was sent.
    fn check(self) -> DriveOutcome<Receiver> {
        let taken = self.0.lock().unwrap().result.take();
        match taken {
            Some(outcome) => DriveOutcome::Ready(outcome),
            None => DriveOutcome::Pending(self),
        }
    }
}

// Create a sender and a task that we can use for testing.
fn channel() -> (Sender, Arc<TestFuture<Receiver>>) {
    let chan = Arc::new(Mutex::new(Channel { result: None }));
    let future = TestFuture::new(Receiver(chan.clone()));
    (
        Sender {
            channel: chan,
            future: future.clone(),
        },
        future,
    )
}

// Poll a task once, driving it with `drive`, and get an OnceCell that's set
// when the continuation is called.
fn poll_with<C>(
    future: &Arc<TestFuture<C>>,
    drive: impl FnOnce(C, &TestFuture<C>) -> DriveOutcome<C>,
) -> Arc<OnceCell<PollCode>> {
    let cell = Arc::new(OnceCell::new());
    let context = {
        let mut cells = future.cells.lock().unwrap();
        cells.push(cell.clone());
        (cells.len() - 1) as u64
    };
    let start = future.task.lock().unwrap().begin_poll(context);
    future.deliver(start.invoke);
    if let Some(computation) = start.drive {
        let outcome = drive(computation, future);
        let invocation = future.task.lock().unwrap().finish_poll(outcome);
        future.deliver(invocation);
    }
    cell
}

fn poll(future: &Arc<TestFuture<Receiver>>) -> Arc<OnceCell<PollCode>> {
    poll_with(future, |receiver, _| receiver.check())
}

fn complete<C>(future: Arc<TestFuture<C>>) -> (Vec<u8>, CallStatus) {
    let mut out_status_code = CallStatus::default();
    let return_value = future.task.lock().unwrap().complete(&mut out_status_code);
    (return_value, out_status_code)
}

#[test]
fn test_success() {
    let (sender, rust_future) = channel();

    // Test polling the task before it's ready
    let continuation_result = poll(&rust_future);
    assert_eq!(continuation_result.get(), None);
    sender.wake();
    assert_eq!(continuation_result.get(), Some(&PollCode::Wake));

    // Test polling the task when it's ready
    let continuation_result = poll(&rust_future);
    assert_eq!(continuation_result.get(), None);
    sender.send(Ok("All done".into()));
    assert_eq!(continuation_result.get(), Some(&PollCode::Wake));

    // Future polls should immediately return ready
    let continuation_result = poll(&rust_future);
    assert_eq!(continuation_result.get(), Some(&PollCode::Ready));

    // Complete the task
    let (return_buf, call_status) = complete(rust_future);
    assert_eq!(call_status.code, CallStatusCode::Success);
    assert_eq!(
        lift(&return_buf).unwrap(),
        Value::Text("All done".to_string())
    );
}

#[test]
fn test_error() {
    let (sender, rust_future) = channel();

    let continuation_result = poll(&rust_future);
    assert_eq!(continuation_result.get(), None);
    sender.send(Err("Something went wrong".into()));
    assert_eq!(continuation_result.get(), Some(&PollCode::Wake));

    let continuation_result = poll(&rust_future);
    assert_eq!(continuation_result.get(), Some(&PollCode::Ready));

    let (_, call_status) = complete(rust_future);
    assert_eq!(call_status.code, CallStatusCode::ExpectedError);
    assert_eq!(
        lift(&call_status.error_buf).unwrap(),
        Value::Text("Something went wrong".to_string())
    );
}

#[test]
fn test_lift_args_error() {
    let (sender, rust_future) = channel();

    let continuation_result = poll(&rust_future);
    assert_eq!(continuation_result.get(), None);
    sender.send_lift_args_error("arg0", "Invalid handle");
    assert_eq!(continuation_result.get(), Some(&PollCode::Wake));

    let continuation_result = poll(&rust_future);
    assert_eq!(continuation_result.get(), Some(&PollCode::Ready));

    let (_, call_status) = complete(rust_future);
    assert_eq!(call_status.code, CallStatusCode::UnexpectedError);
    assert_eq!(
        lift(&call_status.error_buf).unwrap(),
        Value::Text("Failed to convert arg 'arg0':\nInvalid handle".to_string())
    );
}

// Once `cancel` is called, polls answer Ready at once and `complete`
// reports the Cancelled status.
#[test]
fn test_cancel() {
    let (_sender, rust_future) = channel();

    let continuation_result = poll(&rust_future);
    assert_eq!(continuation_result.get(), None);
    rust_future.cancel();
    // Cancellation should immediately invoke the callback with PollCode::Ready
    assert_eq!(continuation_result.get(), Some(&PollCode::Ready));

    // Future polls should immediately invoke the callback with PollCode::Ready
    let continuation_result = poll(&rust_future);
    assert_eq!(continuation_result.get(), Some(&PollCode::Ready));

    let (_, call_status) = complete(rust_future);
    assert_eq!(call_status.code, CallStatusCode::Cancelled);
}

// Once `free` is called, the inner computation should be released, even if
// wakers still hold a reference to the task
#[test]
fn test_release_future() {
    let (sender, rust_future) = channel();
    // Create a weak reference to the channel to use to check if the task has
    // dropped its computation.
    let channel_weak = Arc::downgrade(&sender.channel);
    drop(sender);
    // Create an extra ref to the task, simulating a waker that still holds a
    // reference to it
    let rust_future2 = rust_future.clone();

    // Free the task
    rust_future.free();
    // Even though the task is still alive, the channel shouldn't be
    assert!(Arc::strong_count(&rust_future2) > 0);
    assert_eq!(channel_weak.strong_count(), 0);
    assert!(channel_weak.upgrade().is_none());
}

// If `free` is called with a continuation still stored, we should call it
// then.
//
// This shouldn't happen in practice, but it seems like good defensive
// programming
#[test]
fn test_complete_with_stored_continuation() {
    let (_sender, rust_future) = channel();

    let continuation_result = poll(&rust_future);
    rust_future.free();
    assert_eq!(continuation_result.get(), Some(&PollCode::Ready));
}

// A computation driven by a thread pool can wake the task while we are in
// the middle of polling it. We should answer that poll with Wake so the
// caller schedules another poll.
struct SelfWaking {
    first_time: bool,
}

#[test]
fn test_wake_during_poll() {
    let rust_future = TestFuture::new(SelfWaking { first_time: true });
    let driver = |computation: SelfWaking, future: &TestFuture<SelfWaking>| {
        if computation.first_time {
            // Wake the task while we are in the middle of polling it
            future.wake();
            DriveOutcome::Pending(SelfWaking { first_time: false })
        } else {
            // The second time we're polled, we're ready
            DriveOutcome::Ready(CallOutcome::Success(Value::Text("All done".to_owned())))
        }
    };
    let continuation_result = poll_with(&rust_future, driver);
    // The continuation function should be called immediately
    assert_eq!(continuation_result.get(), Some(&PollCode::Wake));
    // A second poll should finish the task
    let continuation_result = poll_with(&rust_future, driver);
    assert_eq!(continuation_result.get(), Some(&PollCode::Ready));
    let (return_buf, call_status) = complete(rust_future);
    assert_eq!(call_status.code, CallStatusCode::Success);
    assert_eq!(
        lift(&return_buf).unwrap(),
        Value::Text("All done".to_string())
    );
}

// Wake-ups delivered after the task is freed or cancelled are ignored:
// nothing is invoked and nothing panics.
#[test]
fn test_wake_after_free_is_ignored() {
    let (sender, rust_future) = channel();
    let continuation_result = poll(&rust_future);
    rust_future.free();
    assert_eq!(continuation_result.get(), Some(&PollCode::Ready));
    sender.wake();
    // The continuation was answered exactly once, by the free.
    assert_eq!(continuation_result.get(), Some(&PollCode::Ready));
}

// Polling again after cancellation keeps answering Ready.
#[test]
fn test_poll_after_cancel_keeps_answering_ready() {
    let (_sender, rust_future) = channel();
    rust_future.cancel();
    let first = poll(&rust_future);
    assert_eq!(first.get(), Some(&PollCode::Ready));
    let second = poll(&rust_future);
    assert_eq!(second.get(), Some(&PollCode::Ready));
}
