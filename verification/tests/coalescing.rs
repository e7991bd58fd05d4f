use anyhow::Error;
use axum_realtime_kit::coalescing::{
    share_result, CoalescingKey, CoalescingService, CoalescingStats, Execution, OperationError,
    Outcome,
};
use futures::future::{BoxFuture, Shared};
use futures::FutureExt;
use std::future::Future;
use std::sync::atomic::{AtomicUsize, Ordering};
use std::sync::Arc;
use std::time::Duration;
use tokio::sync::Mutex;
use tokio::time::{sleep, timeout};

type SharedResult = Arc<Result<Arc<String>, Arc<OperationError<Error>>>>;
type SharedOp = Shared<BoxFuture<'static, SharedResult>>;
type Service = Arc<Mutex<CoalescingService<String, SharedOp>>>;

fn text_of(error: &OperationError<Error>) -> String {
    match error {
        OperationError::Operation(error) => error.to_string(),
        OperationError::TimedOut(text) => text.clone(),
    }
}

async fn execute<F, Fut>(
    service: Service,
    key: String,
    operation: F,
) -> Result<Arc<String>, Arc<OperationError<Error>>>
where
    F: FnOnce() -> Fut + Send + 'static,
    Fut: Future<Output = Result<String, Error>> + Send + 'static,
{
    let shared_op = {
        let mut table = service.lock().await;
        let limit = table.get_timeout();
        let shared = Arc::clone(&service);
        let worker_key = key.clone();
        let new_op = async move {
            let finished = match limit {
                Some(limit) => timeout(limit, operation()).await.ok(),
                None => Some(operation().await),
            };
            let outcome = Outcome::of(finished);
            let key_text = format!("{:?}", worker_key);
            Arc::new(shared.lock().await.finish(&worker_key, &key_text, outcome))
        }
        .boxed()
        .shared();
        match table.execute(key, new_op.clone()) {
            Execution::Coalesced(existing) => existing,
            Execution::Initiated => new_op,
        }
    };
    share_result(&shared_op.await)
}

async fn simulate_fetch(key: &str, call_count: Arc<AtomicUsize>) -> Result<String, Error> {
    call_count.fetch_add(1, Ordering::SeqCst);
    sleep(Duration::from_millis(50)).await;
    if key == "fail_key" {
        Err(Error::msg(format!("Failed to fetch {}", key)))
    } else {
        Ok(format!("Data for {}", key))
    }
}

fn run<F: Future<Output = ()>>(test: F) {
    tokio::runtime::Builder::new_multi_thread()
        .worker_threads(2)
        .enable_time()
        .build()
        .unwrap()
        .block_on(test);
}

#[test]
fn test_coalescing() {
    run(async {
        let service: Service = Arc::new(Mutex::new(CoalescingService::new()));
        let call_count = Arc::new(AtomicUsize::new(0));
        let key = "test_key".to_string();

        let mut handles = vec![];
        for _ in 0..5 {
            let svc = service.clone();
            let k = key.clone();
            let cc = call_count.clone();
            handles.push(tokio::spawn(execute(svc, k, move || {
                simulate_fetch("test_key", cc)
            })));
        }
        let mut results = vec![];
        for handle in handles {
            results.push(handle.await.unwrap());
        }

        let expected_result = Arc::new("Data for test_key".to_string());
        for result in results {
            match result {
                Ok(data_arc) => assert_eq!(data_arc, expected_result),
                Err(e) => panic!("Expected success, got error: {:?}", text_of(&e)),
            }
        }
        assert_eq!(
            call_count.load(Ordering::SeqCst),
            1,
            "simulate_fetch should only be called once"
        );

        let stats = service.lock().await.get_stats();
        assert_eq!(stats.initiated_operations, 1);
        assert_eq!(stats.coalesced_requests, 4);
        assert_eq!(stats.failed_operations, 0);
        assert_eq!(stats.timed_out_operations, 0);
        assert_eq!(
            service.lock().await.get_pending_tasks_count(),
            0,
            "Map should be empty after completion"
        );
    });
}

#[test]
fn test_failure() {
    run(async {
        let service: Service = Arc::new(Mutex::new(CoalescingService::new()));
        let call_count = Arc::new(AtomicUsize::new(0));
        let key = "fail_key".to_string();

        let mut handles = vec![];
        for _ in 0..3 {
            let svc = service.clone();
            let k = key.clone();
            let cc = call_count.clone();
            handles.push(tokio::spawn(execute(svc, k, move || {
                simulate_fetch("fail_key", cc)
            })));
        }
        let mut results = vec![];
        for handle in handles {
            results.push(handle.await.unwrap());
        }

        for result in results {
            match result {
                Ok(_) => panic!("Expected failure, got success"),
                Err(e_arc) => {
                    assert!(
                        text_of(&e_arc).contains("Failed to fetch fail_key"),
                        "Unexpected error message: {}",
                        text_of(&e_arc)
                    );
                }
            }
        }
        assert_eq!(
            call_count.load(Ordering::SeqCst),
            1,
            "simulate_fetch should still only be called once"
        );

        let stats = service.lock().await.get_stats();
        assert_eq!(stats.initiated_operations, 1);
        assert_eq!(stats.coalesced_requests, 2);
        assert_eq!(stats.failed_operations, 1);
        assert_eq!(stats.timed_out_operations, 0);
        assert_eq!(
            service.lock().await.get_pending_tasks_count(),
            0,
            "Map should be empty after completion"
        );
    });
}

#[test]
fn test_timeout() {
    run(async {
        let service: Service = Arc::new(Mutex::new(CoalescingService::with_timeout(
            Duration::from_millis(20),
        )));
        let key = "timeout_key".to_string();

        let mut handles = vec![];
        for _ in 0..3 {
            let svc = service.clone();
            let k = key.clone();
            let op_fn = || async {
                sleep(Duration::from_millis(100)).await;
                Ok("Should not reach here".to_string())
            };
            handles.push(tokio::spawn(execute(svc, k, op_fn)));
        }
        let mut results = vec![];
        for handle in handles {
            results.push(handle.await.unwrap());
        }

        for result in results {
            match result {
                Ok(_) => panic!("Expected timeout error, got success"),
                Err(e_arc) => {
                    assert!(
                        text_of(&e_arc).contains("Operation timed out"),
                        "Unexpected error message: {}",
                        text_of(&e_arc)
                    );
                    assert!(
                        text_of(&e_arc).contains("timeout_key"),
                        "Error message should contain the key: {}",
                        text_of(&e_arc)
                    );
                }
            }
        }

        let stats = service.lock().await.get_stats();
        assert_eq!(stats.initiated_operations, 1);
        assert_eq!(stats.coalesced_requests, 2);
        assert_eq!(stats.failed_operations, 0);
        assert_eq!(stats.timed_out_operations, 1);
        assert_eq!(
            service.lock().await.get_pending_tasks_count(),
            0,
            "Map should be empty after completion (even on timeout)"
        );
    });
}

#[test]
fn test_independent_keys() {
    run(async {
        let service: Service = Arc::new(Mutex::new(CoalescingService::new()));
        let call_count = Arc::new(AtomicUsize::new(0));
        let key1 = "key1".to_string();
        let key2 = "key2".to_string();
        let cc1 = call_count.clone();
        let cc2 = call_count.clone();

        let h1 = tokio::spawn(execute(service.clone(), key1.clone(), move || async move {
            simulate_fetch(&key1, cc1).await
        }));
        let h2 = tokio::spawn(execute(service.clone(), key2.clone(), move || async move {
            simulate_fetch(&key2, cc2).await
        }));
        let res1 = h1.await.unwrap();
        let res2 = h2.await.unwrap();

        assert_eq!(res1.ok().unwrap(), Arc::new("Data for key1".to_string()));
        assert_eq!(res2.ok().unwrap(), Arc::new("Data for key2".to_string()));
        assert_eq!(
            call_count.load(Ordering::SeqCst),
            2,
            "simulate_fetch should be called twice for independent keys"
        );

        let stats = service.lock().await.get_stats();
        assert_eq!(stats.initiated_operations, 2);
        assert_eq!(stats.coalesced_requests, 0);
        assert_eq!(stats.failed_operations, 0);
        assert_eq!(stats.timed_out_operations, 0);
        assert_eq!(
            service.lock().await.get_pending_tasks_count(),
            0,
            "Map should be empty after completion"
        );
    });
}

type Plain = CoalescingService<String, u32>;

fn finish(service: &mut Plain, key: &str, outcome: Outcome<u8, &'static str>) -> String {
    match service.finish(&key.to_string(), &format!("{:?}", key), outcome) {
        Ok(value) => format!("value {}", value),
        Err(error) => match &*error {
            OperationError::Operation(error) => format!("error {}", error),
            OperationError::TimedOut(text) => text.clone(),
        },
    }
}

#[test]
fn a_request_joins_the_handle_that_is_in_flight() {
    let mut service = Plain::new();
    assert!(matches!(service.execute("a".to_string(), 1), Execution::Initiated));
    assert!(matches!(service.execute("b".to_string(), 2), Execution::Initiated));
    assert!(matches!(service.execute("a".to_string(), 3), Execution::Coalesced(1)));
    assert!(matches!(service.execute("b".to_string(), 4), Execution::Coalesced(2)));
    assert_eq!(service.get_pending_tasks_count(), 2);

    assert_eq!(finish(&mut service, "a", Outcome::Completed(7)), "value 7");
    assert_eq!(service.get_pending_tasks_count(), 1);
    assert!(matches!(service.execute("b".to_string(), 5), Execution::Coalesced(2)));
    assert!(matches!(service.execute("a".to_string(), 6), Execution::Initiated));
    let stats = service.get_stats();
    assert_eq!(stats.initiated_operations, 3);
    assert_eq!(stats.coalesced_requests, 3);
}

#[test]
fn every_ending_frees_the_key() {
    let mut service = Plain::default();
    service.execute("k".to_string(), 1);
    assert_eq!(
        finish(&mut service, "k", Outcome::Failed("boom")),
        "error boom"
    );
    assert_eq!(service.get_pending_tasks_count(), 0);
    service.execute("k".to_string(), 2);
    assert_eq!(
        finish(&mut service, "k", Outcome::TimedOut),
        "Operation timed out for key: \"k\""
    );
    assert_eq!(service.get_pending_tasks_count(), 0);
    assert_eq!(
        service.get_stats(),
        CoalescingStats {
            initiated_operations: 2,
            coalesced_requests: 0,
            failed_operations: 1,
            timed_out_operations: 1,
        }
    );
    // Nothing is in flight: only the counters move.
    finish(&mut service, "k", Outcome::Failed("late"));
    assert_eq!(service.get_stats().failed_operations, 2);
}

#[test]
fn an_error_that_reads_like_a_timeout_is_a_failure() {
    run(async {
        let service: Service = Arc::new(Mutex::new(CoalescingService::new()));
        let text = "Operation timed out for key upstream";
        let result = execute(service.clone(), "k".to_string(), move || async move {
            Err(Error::msg(text))
        })
        .await;
        assert_eq!(text_of(&result.unwrap_err()), text);
        assert_eq!(
            service.lock().await.get_stats(),
            CoalescingStats {
                initiated_operations: 1,
                coalesced_requests: 0,
                failed_operations: 1,
                timed_out_operations: 0,
            }
        );
        assert_eq!(service.lock().await.get_pending_tasks_count(), 0);
    });
}

#[test]
fn a_release_leaves_the_counters() {
    let mut service = Plain::new();
    service.execute("a".to_string(), 1);
    service.execute("b".to_string(), 2);
    let stats = service.get_stats();
    assert!(service.is_in_flight(&"a".to_string()));
    service.release(&"a".to_string());
    assert!(!service.is_in_flight(&"a".to_string()));
    assert!(service.is_in_flight(&"b".to_string()));
    service.release(&"a".to_string());
    assert_eq!(service.get_stats(), stats);
    assert_eq!(service.get_pending_tasks_count(), 1);
    assert!(matches!(service.execute("b".to_string(), 3), Execution::Coalesced(2)));
    assert!(matches!(service.execute("a".to_string(), 4), Execution::Initiated));
}

#[test]
fn a_reset_leaves_the_operations_in_flight() {
    let mut service = Plain::with_timeout(Duration::from_millis(3));
    assert_eq!(service.get_timeout(), Some(Duration::from_millis(3)));
    assert_eq!(Plain::new().get_timeout(), None);
    service.execute("k".to_string(), 1);
    service.execute("k".to_string(), 1);
    service.reset_stats();
    assert_eq!(service.get_stats(), CoalescingStats::default());
    assert_eq!(service.get_stats().coalesced_requests, 0);
    assert_eq!(service.get_pending_tasks_count(), 1);
    assert_eq!(service.get_timeout(), Some(Duration::from_millis(3)));
}

#[test]
fn counters_add_up_over_a_history() {
    let mut service: CoalescingService<u64, u32> = CoalescingService::new();
    for request in 0..10u64 {
        service.execute(request % 3, 0);
    }
    let failed = Outcome::Failed::<(), ()>(());
    assert!(service.finish(&1, "1", failed).is_err());
    assert!(service.finish::<(), ()>(&2, "2", Outcome::TimedOut).is_err());
    let stats = service.get_stats();
    assert_eq!(stats.initiated_operations + stats.coalesced_requests, 10);
    assert_eq!(stats.initiated_operations, service.get_pending_tasks_count() + 2);
    assert_eq!(stats.failed_operations, 1);
    assert_eq!(stats.timed_out_operations, 1);
}

#[test]
fn an_outcome_is_what_was_returned() {
    assert!(matches!(Outcome::<u8, Error>::of(Some(Ok(4))), Outcome::Completed(4)));
    assert!(matches!(Outcome::<u8, Error>::of(None), Outcome::TimedOut));
    match Outcome::<u8, Error>::of(Some(Err(Error::msg("why")))) {
        Outcome::Failed(error) => assert_eq!(error.to_string(), "why"),
        _ => panic!("expected a failure"),
    }
}

#[test]
fn keys_are_told_apart_by_name() {
    assert!("a".to_string().same(&"a".to_string()));
    assert!(!"a".to_string().same(&"b".to_string()));
    assert!(3u64.same(&3));
    assert!(!3u64.same(&4));
}

#[test]
fn a_result_is_shared_without_a_copy() {
    let value = Arc::new(5);
    let shared: Arc<Result<Arc<i32>, Arc<String>>> = Arc::new(Ok(Arc::clone(&value)));
    assert!(Arc::ptr_eq(&share_result(&shared).unwrap(), &value));
    let error = Arc::new("bad".to_string());
    let shared: Arc<Result<Arc<i32>, Arc<String>>> = Arc::new(Err(Arc::clone(&error)));
    assert!(Arc::ptr_eq(&share_result(&shared).unwrap_err(), &error));
}
