use karma_calculator::{format_usize, status_name, ServerResponse, ServerStatus};

#[test]
fn decimal_rendering() {
    assert_eq!(format_usize(0), "0");
    assert_eq!(format_usize(7), "7");
    assert_eq!(format_usize(10), "10");
    assert_eq!(format_usize(255), "255");
    assert_eq!(format_usize(90210), "90210");
}

#[test]
fn status_names() {
    assert_eq!(status_name(&ServerStatus::ReadyForJoining), "ReadyForJoining");
    assert_eq!(status_name(&ServerStatus::ReadyForInputs), "ReadyForInputs");
    assert_eq!(status_name(&ServerStatus::ReadyForRunning), "ReadyForRunning");
    assert_eq!(status_name(&ServerStatus::RunningFhe), "RunningFhe");
    assert_eq!(status_name(&ServerStatus::CompletedFhe), "CompletedFhe");
}

#[test]
fn response_messages() {
    let r = ServerResponse::ok("fine");
    assert!(r.ok);
    assert_eq!(r.msg, "fine");

    let r = ServerResponse::err("nope");
    assert!(!r.ok);
    assert_eq!(r.msg, "nope");

    let r = ServerResponse::ok_user(42);
    assert!(r.ok);
    assert_eq!(r.msg, "42");

    let r = ServerResponse::err_unregistered_user(3);
    assert!(!r.ok);
    assert_eq!(r.msg, "User 3 hasn't registered yet");

    let r = ServerResponse::err_unregistered_users(3, 1);
    assert!(!r.ok);
    assert_eq!(r.msg, "Some users haven't registered yet. Want 3 Got 1");

    let r = ServerResponse::err_already_concluded(&ServerStatus::ReadyForInputs);
    assert!(!r.ok);
    assert_eq!(r.msg, "Registration already concluded, status: ReadyForInputs");

    let r = ServerResponse::err_not_ready_for_run(&ServerStatus::ReadyForInputs);
    assert!(!r.ok);
    assert_eq!(r.msg, "Not ready for computation, status: ReadyForInputs");

    let r = ServerResponse::err_run_in_progress();
    assert!(!r.ok);
    assert_eq!(r.msg, "Fhe computation already running");

    let r = ServerResponse::ok_run_already_end();
    assert!(r.ok);
    assert_eq!(r.msg, "Fhe computation completed");

    let r = ServerResponse::err_missing_submission(2);
    assert!(!r.ok);
    assert_eq!(r.msg, "can't find cipher submission from user 2");

    let r = ServerResponse::err_output_not_ready();
    assert!(!r.ok);
    assert_eq!(r.msg, "FHE output not ready yet");

    let r = ServerResponse::err_decryption_share_not_found(1, 2);
    assert!(!r.ok);
    assert_eq!(r.msg, "Decryption share of 1 from user 2 not found");
}
