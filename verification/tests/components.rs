use opcua_howick::config::{default_sensor_poll_secs, Config, DeliveryMode};
use opcua_howick::machine::{Job, MachineState, MachineStatus};
use opcua_howick::mock::{mock_response, mock_route, MockPoll, MockQueue, MockRoute};
use opcua_howick::opcua::{
    announced_job, apply_completions, complete_job_argument, delivery_file, endpoint_url,
    namespace_index, node_values, record_opcua_delivery, resolve_namespace,
    server_application_uri, CompleteJobError,
};
use opcua_howick::poller::{
    base_url, bearer_header, complete_url, job_file_name, pending_url, record_polled_job, PendingJob,
};
use opcua_howick::sensor::{
    data_bit, data_ready, gpio_pin, hx711_count, parse_i32, parse_u8, push_interval_secs,
    sensor_endpoint, HX711_DAT_PIN_DEFAULT,
};
use opcua_howick::watcher::{
    begin_direct, delivery_file_name, enqueue_watched, finish_direct, is_csv, watched_job,
};

const SECOND: u128 = 1_000_000_000;

#[test]
fn machine_status_names() {
    assert_eq!(MachineStatus::Offline.as_str(), "Offline");
    assert_eq!(MachineStatus::Idle.as_str(), "Idle");
    assert_eq!(MachineStatus::Running.as_str(), "Running");
    assert_eq!(MachineStatus::Error("jam".into()).as_str(), "Error");
}

#[test]
fn new_state_is_offline_and_empty() {
    let s = MachineState::new();
    assert!(matches!(s.status, MachineStatus::Offline));
    assert!(s.job_queue.is_empty() && s.completed_jobs.is_empty());
    assert_eq!(s.current_job, None);
    assert_eq!(s.pieces_produced, 0);
    assert!(!s.coil_low_alert);
}

#[test]
fn completing_moves_only_the_first_matching_job() {
    let mut s = MachineState::new();
    s.queue_upload(Job::new("a".into(), "A".into(), "pa".into(), 1), 1);
    s.queue_upload(Job::new("b".into(), "B".into(), "pb".into(), 2), 2);
    s.queue_upload(Job::new("a".into(), "A2".into(), "pa2".into(), 3), 3);
    s.complete_job("a", 4);
    assert_eq!(s.job_queue.len() + s.completed_jobs.len(), 3);
    assert_eq!(s.completed_jobs[0].frameset_name, "A");
    assert_eq!(s.job_queue[0].id, "b");
    assert_eq!(s.job_queue[1].frameset_name, "A2");
    assert_eq!(s.last_upload_at, Some(3));
    assert_eq!(s.agent_last_seen_at, Some(4));
}

#[test]
fn default_configuration() {
    let c = Config::default();
    assert_eq!(c.opcua.host, "0.0.0.0");
    assert_eq!(c.opcua.port, 4840);
    assert_eq!(c.http.port, 4841);
    assert_eq!(c.machine.machine_input_dir, "./jobs/machine");
    assert_eq!(c.machine.delivery_mode, DeliveryMode::Direct);
    assert_eq!(c.plat_trunk.url, "http://localhost:3000");
    assert_eq!(c.plat_trunk.status_push_interval_secs, 5);
    assert_eq!(c.topology(), "LAN");
    assert_eq!(DeliveryMode::default(), DeliveryMode::Direct);
    assert_eq!(default_sensor_poll_secs(), 30);
}

#[test]
fn topology_and_overrides() {
    let mut c = Config::default();
    c.apply_overrides(Some("https://worker.example.dev".into()), Some("QUEUE".into()));
    assert_eq!(c.topology(), "Cloud");
    assert_eq!(c.machine.delivery_mode, DeliveryMode::Queue);
    c.apply_overrides(Some("http://127.0.0.1:3000".into()), Some("sideways".into()));
    assert_eq!(c.topology(), "LAN");
    assert_eq!(c.machine.delivery_mode, DeliveryMode::Queue);
    c.apply_overrides(None, Some("Direct".into()));
    assert_eq!(c.machine.delivery_mode, DeliveryMode::Direct);
    assert_eq!(c.plat_trunk.url, "http://127.0.0.1:3000");
}

#[test]
fn watcher_recognises_csv_files() {
    assert!(is_csv("jobs/input/W1.csv"));
    assert!(is_csv("W1.CSV"));
    assert!(!is_csv("W1.csv.tmp"));
    assert!(!is_csv("jobs/input/.csv"));
    assert!(!is_csv("README"));
    assert_eq!(delivery_file_name("jobs/input/W1.csv"), "W1.csv");
    assert_eq!(delivery_file_name("/"), "unknown.csv");
}

#[test]
fn watcher_queues_each_file_once() {
    let mut s = MachineState::new();
    let job = watched_job("jobs/input/W1.csv", 1_700_000_000 * SECOND);
    assert_eq!(job.id, "W1-1700000000");
    assert_eq!(job.frameset_name, "W1");
    assert!(enqueue_watched(&mut s, job));
    assert!(matches!(s.status, MachineStatus::Idle));
    let again = watched_job("jobs/input/W1.csv", 1_700_000_005 * SECOND);
    assert!(!enqueue_watched(&mut s, again));
    // the same file written with a doubled separator is the same path
    let twin = watched_job("jobs//input/W1.csv", 1_700_000_006 * SECOND);
    assert!(!enqueue_watched(&mut s, twin));
    assert_eq!(s.job_queue.len(), 1);
}

#[test]
fn direct_delivery_completes_the_job() {
    let mut s = MachineState::new();
    let job = watched_job("in/T1.csv", 3 * SECOND);
    let id = job.id.clone();
    begin_direct(&mut s, job);
    assert_eq!(s.job_queue.len(), 1);
    finish_direct(&mut s, &id, "T1".into());
    assert!(s.job_queue.is_empty());
    assert_eq!(s.completed_jobs[0].id, "T1-3");
    assert!(matches!(s.status, MachineStatus::Idle));
    assert_eq!(s.current_job.as_deref(), Some("T1"));
}

#[test]
fn poller_urls_and_records() {
    let base = base_url("http://localhost:3000//");
    assert_eq!(base, "http://localhost:3000");
    assert_eq!(pending_url(&base), "http://localhost:3000/api/jobs/howick/pending");
    assert_eq!(complete_url(&base, "dev-001"), "http://localhost:3000/api/jobs/howick/dev-001/complete");
    assert_eq!(bearer_header(""), None);
    assert_eq!(bearer_header("k1").as_deref(), Some("Bearer k1"));
    assert_eq!(job_file_name("T1"), "T1.csv");
    let mut s = MachineState::new();
    let job = PendingJob { job_id: "dev-001".into(), frameset_name: "T1".into(), csv: "UNIT".into() };
    record_polled_job(&mut s, &job, "jobs/machine/T1.csv".into(), 9);
    assert_eq!(s.completed_jobs[0].id, "dev-001");
    assert_eq!(s.completed_jobs[0].csv_path, "jobs/machine/T1.csv");
    assert!(matches!(s.status, MachineStatus::Idle));
    assert_eq!(s.current_job, None);
}

#[test]
fn opcua_method_arguments() {
    assert!(matches!(complete_job_argument(None), Err(CompleteJobError::TypeMismatch)));
    assert!(matches!(complete_job_argument(Some(None)), Err(CompleteJobError::InvalidArgument)));
    assert!(matches!(
        complete_job_argument(Some(Some(String::new()))),
        Err(CompleteJobError::InvalidArgument)
    ));
    assert_eq!(complete_job_argument(Some(Some("j1".into()))).ok().as_deref(), Some("j1"));
    assert_eq!(announced_job(Some(Some("j2".into()))).as_deref(), Some("j2"));
    assert_eq!(announced_job(Some(Some(String::new()))), None);
    assert_eq!(announced_job(None), None);
}

#[test]
fn opcua_completions_and_nodes() {
    let mut s = MachineState::new();
    s.queue_upload(Job::new("a".into(), "A".into(), "pa".into(), 1), 1);
    s.queue_upload(Job::new("b".into(), "B".into(), "pb".into(), 2), 2);
    let n = node_values(&s);
    assert_eq!(n.status, "Offline");
    assert_eq!(n.current_job, "");
    assert_eq!(n.queue_depth, 2);
    assert_eq!(n.pending, Some(("a".to_string(), "A".to_string(), "pa".to_string())));
    apply_completions(&mut s, &vec!["b".to_string(), "zzz".to_string()]);
    assert_eq!(s.job_queue.len(), 1);
    assert_eq!(s.completed_jobs[0].id, "b");
    assert!(matches!(s.status, MachineStatus::Offline));
    let n = node_values(&s);
    assert_eq!((n.queue_depth, n.completed_count), (1, 1));
    record_opcua_delivery(&mut s, "c".into(), "C".into(), "m/C.csv".into(), 5);
    assert_eq!(s.completed_jobs.len(), 2);
}

#[test]
fn opcua_namespaces_and_names() {
    let values = vec![
        Some("http://opcfoundation.org/UA/".to_string()),
        None,
        Some("urn:howick-edge-agent".to_string()),
    ];
    assert_eq!(namespace_index(&values, "urn:howick-edge-agent"), Some(2));
    assert_eq!(namespace_index(&values, "urn:other"), None);
    assert_eq!(resolve_namespace(&values, "http://opcfoundation.org/UA/"), 0);
    assert_eq!(resolve_namespace(&vec![], "urn:x"), 2);
    assert_eq!(delivery_file("T1", ""), None);
    assert_eq!(delivery_file("T1", "UNIT").as_deref(), Some("T1.csv"));
    assert_eq!(server_application_uri("urn:howick-frama"), "urn:howick-frama-server");
    assert_eq!(endpoint_url(None, 4840), "opc.tcp://127.0.0.1:4840/");
    assert_eq!(endpoint_url(Some("opc.tcp://h:1/".into()), 4840), "opc.tcp://h:1/");
}

#[test]
fn hx711_counts() {
    let mut bits = vec![0i32; 24];
    bits[23] = 1;
    assert_eq!(hx711_count(&bits), 1);
    let all = vec![1i32; 24];
    assert_eq!(hx711_count(&all), -1);
    let mut top = vec![0i32; 24];
    top[0] = 1;
    assert_eq!(hx711_count(&top), -8_388_608);
    let mut max = vec![1i32; 24];
    max[0] = 0;
    assert_eq!(hx711_count(&max), 8_388_607);
}

#[test]
fn sensor_text_and_schedule() {
    assert_eq!(parse_u8("+7"), Some(7));
    assert_eq!(parse_u8("256"), None);
    assert_eq!(parse_u8(""), None);
    assert_eq!(parse_i32("-2147483648"), Some(i32::MIN));
    assert_eq!(parse_i32("2147483648"), None);
    assert_eq!(parse_i32("-"), None);
    assert_eq!(parse_i32("-+1"), None);
    assert_eq!(parse_i32("+12"), Some(12));
    assert_eq!(gpio_pin(Some("17".into()), HX711_DAT_PIN_DEFAULT), 17);
    assert_eq!(gpio_pin(Some("GPIO17".into()), HX711_DAT_PIN_DEFAULT), 5);
    assert_eq!(gpio_pin(None, 6), 6);
    assert!(data_ready("0\n"));
    assert!(!data_ready("1\n"));
    assert!(!data_ready("x"));
    assert_eq!(data_bit(" 1\n"), 1);
    assert_eq!(data_bit("garbage"), 0);
    assert_eq!(push_interval_secs(1), 5);
    assert_eq!(push_interval_secs(30), 30);
    assert_eq!(sensor_endpoint("http://pi5:4841"), "http://pi5:4841/api/sensor/coil");
}

#[test]
fn mock_backend_serves_jobs_in_order() {
    let total = 2;
    let mut q = MockQueue::new();
    assert!(matches!(q.poll(total), MockPoll::Serve { index: 0, fresh: true }));
    q.mark_served(total);
    assert!(matches!(q.poll(total), MockPoll::Serve { index: 0, fresh: false }));
    assert!(q.complete(total));
    assert!(matches!(q.poll(total), MockPoll::Serve { index: 1, fresh: true }));
    assert!(!q.complete(total));
    q.mark_served(total);
    assert!(q.complete(total));
    assert!(matches!(q.poll(total), MockPoll::Empty { first: true }));
    assert!(matches!(q.poll(total), MockPoll::Empty { first: false }));
    assert!(!q.complete(total));
}

#[test]
fn mock_backend_routes_and_replies() {
    assert!(matches!(mock_route(b"GET /api/jobs/howick/pending HTTP/1.1\r\n\r\n"), MockRoute::Pending));
    assert!(matches!(mock_route(b"POST /x/complete HTTP/1.1\r\n\r\n"), MockRoute::Complete));
    assert!(matches!(mock_route(b"GET /health HTTP/1.1\r\n\r\n"), MockRoute::Health));
    assert!(matches!(mock_route(&[0xff, b' ', b'/']), MockRoute::NotFound));
    assert_eq!(
        mock_response(200, "{\"ok\":true}"),
        "HTTP/1.1 200 OK\r\nContent-Type: application/json\r\nContent-Length: 11\r\nConnection: close\r\n\r\n{\"ok\":true}"
    );
    assert!(mock_response(404, "").starts_with("HTTP/1.1 404 Not Found\r\n"));
}
