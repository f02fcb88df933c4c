use execute::{Delivery, ExecuteError, IoErrorKind, ProcessOutput, TaskHandle, TaskWithResult};

fn output(stdout: &[u8]) -> ProcessOutput {
    ProcessOutput { exit_code: Some(0), stdout: stdout.to_vec(), stderr: vec![] }
}

#[test]
fn task_handle_wait_receives_result() {
    let handle = TaskHandle::new(1);

    let result = handle.wait(Some(Ok(output(b"hello"))));
    assert!(result.is_ok());
    let output = result.unwrap();
    assert_eq!(output.stdout, b"hello");
}

#[test]
fn task_handle_try_get_returns_none_when_pending() {
    let handle = TaskHandle::new(1);

    let result = handle.try_get(Delivery::Pending);
    assert!(result.is_ok());
    assert!(result.unwrap().is_none());
}

#[test]
fn task_handle_try_get_returns_result_when_done() {
    let handle = TaskHandle::new(1);

    let result = handle.try_get(Delivery::Arrived(Ok(output(b"world"))));
    assert!(result.is_ok());
    assert!(result.unwrap().is_some());
}

#[test]
fn task_handle_is_done_returns_correct_status() {
    let handle = TaskHandle::new(1);

    assert!(!handle.is_done(Delivery::Pending).unwrap());

    assert!(handle.is_done(Delivery::Arrived(Ok(output(b"")))).unwrap());
}

#[test]
fn task_handle_id_returns_correct_id() {
    let handle = TaskHandle::new(42);
    assert_eq!(handle.id(), 42);
}

#[test]
fn task_with_result_sends_result() {
    let (task, handle) = TaskWithResult::new(1);
    assert_eq!(task.id, 1);
    assert_eq!(handle.id(), 1);

    let result = handle.wait(Some(Ok(output(b"test"))));
    assert!(result.is_ok());
}

#[test]
fn task_handle_hands_on_the_output_and_the_error() {
    let handle = TaskHandle::new(3);
    let got = handle.try_get(Delivery::Arrived(Ok(output(b"world")))).expect("no error");
    assert_eq!(got.expect("an output").stdout, b"world");

    match handle.try_get(Delivery::Arrived(Err(ExecuteError::child("broken")))) {
        Err(ExecuteError::Child(message)) => assert_eq!(message, "broken"),
        other => panic!("expected the error, got {:?}", other),
    }
    match handle.is_done(Delivery::Arrived(Err(ExecuteError::child("broken")))) {
        Err(ExecuteError::Child(message)) => assert_eq!(message, "broken"),
        other => panic!("expected the error, got {:?}", other),
    }
    match handle.wait(Some(Err(ExecuteError::child("broken")))) {
        Err(ExecuteError::Child(message)) => assert_eq!(message, "broken"),
        other => panic!("expected the error, got {:?}", other),
    }
}

#[test]
fn task_handle_on_a_closed_channel() {
    let handle = TaskHandle::new(3);
    match handle.try_get(Delivery::Disconnected) {
        Err(ExecuteError::Io(failure)) => {
            assert_eq!(failure.kind, IoErrorKind::Other);
            assert_eq!(failure.message, "task result channel disconnected");
        }
        other => panic!("expected an I/O error, got {:?}", other),
    }
    assert!(handle.is_done(Delivery::Disconnected).is_err());
    match handle.wait(None) {
        Err(ExecuteError::Io(failure)) => {
            assert_eq!(failure.kind, IoErrorKind::Other);
            assert_eq!(failure.message, "failed to receive task result");
        }
        other => panic!("expected an I/O error, got {:?}", other),
    }
}
