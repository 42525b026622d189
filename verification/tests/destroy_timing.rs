use std::time::{Duration, Instant};

use agent_core::errors::ErrorKind;
use agent_core::teardown::{interpret_destroy_race, DestroyRace};

#[test]
fn slow_destroy_times_out_within_its_deadline() {
    // A destroy that takes five seconds, raced against a one-second
    // deadline: the caller gets a Timeout error after about one second,
    // not five.
    let rt = tokio::runtime::Builder::new_current_thread()
        .enable_time()
        .build()
        .unwrap();
    let started = Instant::now();
    let outcome = rt.block_on(async {
        let (tx, rx) = tokio::sync::oneshot::channel::<i32>();
        let destroy = tokio::spawn(async move {
            tokio::time::sleep(Duration::from_secs(5)).await;
            let _ = tx.send(1);
        });
        let raced = tokio::time::timeout(Duration::from_secs(1), rx).await;
        destroy.abort();
        match raced {
            Err(_) => DestroyRace::DeadlineElapsed,
            Ok(Err(_)) => DestroyRace::TaskFailed,
            Ok(Ok(_)) => DestroyRace::Completed,
        }
    });
    let elapsed = started.elapsed();

    assert_eq!(interpret_destroy_race(outcome).unwrap_err(), ErrorKind::Timeout);
    assert!(elapsed >= Duration::from_millis(900), "deadline honoured: {:?}", elapsed);
    assert!(elapsed < Duration::from_secs(3), "caller is not held for the full destroy: {:?}", elapsed);
}

#[test]
fn fast_destroy_completes_before_the_deadline() {
    let rt = tokio::runtime::Builder::new_current_thread()
        .enable_time()
        .build()
        .unwrap();
    let outcome = rt.block_on(async {
        let (tx, rx) = tokio::sync::oneshot::channel::<i32>();
        tokio::spawn(async move {
            let _ = tx.send(1);
        });
        match tokio::time::timeout(Duration::from_secs(1), rx).await {
            Err(_) => DestroyRace::DeadlineElapsed,
            Ok(Err(_)) => DestroyRace::TaskFailed,
            Ok(Ok(_)) => DestroyRace::Completed,
        }
    });
    assert!(interpret_destroy_race(outcome).is_ok());
}
