use kalgan::settings::Settings;
use kalgan::settings::Value;
use kalgan::thread_pool::ThreadPool;
use kalgan::thread_pool::WorkerState;

#[test]
fn pool_size_from_settings() {
    let mut settings = Settings::new();
    settings.set("server.number_of_workers".to_string(), Value::Int(3));
    let pool = ThreadPool::new(&settings);
    assert_eq!(pool.workers.len(), 3);
    assert!(pool
        .workers
        .iter()
        .all(|w| matches!(w, WorkerState::Running)));
}

#[test]
fn pool_default_size() {
    let settings = Settings::new();
    let pool = ThreadPool::new(&settings);
    assert_eq!(pool.workers.len(), 10);
}

#[test]
fn pool_delivers_each_job_once_and_stops() {
    let mut settings = Settings::new();
    settings.set("server.number_of_workers".to_string(), Value::Int(3));
    let mut pool = ThreadPool::new(&settings);
    pool.execute(11);
    pool.execute(22);
    pool.execute(33);
    pool.shutdown();
    assert_eq!(pool.queue.len(), 6);
    let mut w: usize = 0;
    let mut steps: usize = 0;
    while pool.queue.len() > 0 {
        pool.step(w);
        w = (w + 1) % 3;
        steps += 1;
        assert!(steps < 100, "the queue must drain");
    }
    assert_eq!(pool.log, vec![11, 22, 33]);
    assert!(pool
        .workers
        .iter()
        .all(|s| matches!(s, WorkerState::Stopped)));
}

#[test]
fn pool_stopped_worker_consumes_nothing() {
    let mut settings = Settings::new();
    settings.set("server.number_of_workers".to_string(), Value::Int(1));
    let mut pool = ThreadPool::new(&settings);
    pool.shutdown();
    pool.step(0);
    assert!(matches!(pool.workers[0], WorkerState::Stopped));
    pool.execute(7);
    pool.step(0);
    assert_eq!(pool.log.len(), 0);
    assert_eq!(pool.queue.len(), 1);
}
