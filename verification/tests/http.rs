use opcua_howick::dashboard::DASHBOARD_HTML;
use opcua_howick::http::{
    ago_secs, agent_error_reply, complete_reply, dashboard_reply, escape_csv, extract_json_number,
    extract_json_string, finish_upload, health_reply, jobs_reply, job_id, not_found_reply,
    parse_request, pending_job_json, pending_reply, timestamp_id, plan_upload, redirect_reply, response_text, route,
    sanitise_filename, sensor_reply, sensor_weight_text, status_reply, Reply, Route,
};
use opcua_howick::machine::{MachineState, MachineStatus};

const T1_CSV: &str = "UNIT,MILLIMETRE\nFRAMESET,T1\nCOMPONENT,T1-1,TOP CHORD\n";

const SECOND: u128 = 1_000_000_000;

fn request(raw: &str) -> opcua_howick::http::Request {
    parse_request(raw.as_bytes()).expect("request should parse")
}

fn idle_state() -> MachineState {
    let mut s = MachineState::new();
    s.set_status(MachineStatus::Idle);
    s
}

#[test]
fn health_check() {
    let req = request("GET /health HTTP/1.1\r\nHost: x\r\n\r\n");
    assert!(matches!(route(&req), Route::Health));
    let reply = health_reply();
    assert_eq!(reply.code, 200);
    assert!(reply.body.contains("\"ok\":true"));
}

#[test]
fn status_returns_expected_fields() {
    let req = request("GET /status HTTP/1.1\r\n\r\n");
    assert!(matches!(route(&req), Route::Status));
    let s = idle_state();
    let reply = status_reply(&s, "0.1.0 (abc1234)", "0", false, 5 * SECOND);
    assert_eq!(reply.code, 200);
    for field in ["\"status\"", "\"queue_depth\"", "\"coil_remaining\"", "\"coil_low_alert\""] {
        assert!(reply.body.contains(field), "missing {field}");
    }
    assert_eq!(
        reply.body,
        "{\"version\":\"0.1.0 (abc1234)\",\"status\":\"Idle\",\"current_job\":null,\"pieces_produced\":0,\
\"queue_depth\":0,\"coil_remaining\":0,\"coil_low_alert\":false,\"last_error\":\"\",\
\"last_upload_secs_ago\":null,\"completed_count\":0,\"agent_last_seen_secs_ago\":null,\
\"agent_last_error\":\"\",\"sensor_last_read_secs_ago\":null}"
    );
}

#[test]
fn dashboard_serves_html() {
    let req = request("GET /dashboard HTTP/1.1\r\n\r\n");
    assert!(matches!(route(&req), Route::Dashboard));
    let reply = dashboard_reply();
    assert_eq!(reply.code, 200);
    assert_eq!(reply.content_type, "text/html; charset=utf-8");
    assert!(reply.body.contains("Howick Pipeline"));
    assert_eq!(reply.body, DASHBOARD_HTML);
}

/// Full pipeline: upload → queued → agent polls → agent completes → completed.
#[test]
fn upload_queue_agent_poll_complete() {
    let mut s = idle_state();

    // 1. User uploads via the dashboard
    let raw = format!(
        "POST /upload HTTP/1.1\r\nContent-Type: text/plain\r\nX-Filename: T1.csv\r\n\r\n{T1_CSV}"
    );
    let req = request(&raw);
    assert!(matches!(route(&req), Route::Upload));
    let plan = match plan_upload(&req) {
        Ok(p) => p,
        Err(_) => panic!("upload should be accepted"),
    };
    assert_eq!(plan.filename, "T1.csv");
    assert_eq!(plan.frameset_name, "T1");
    assert_eq!(plan.csv, T1_CSV.trim());
    let reply = finish_upload(&mut s, &plan, "/jobs/input/T1.csv".to_string(), 1_700_000_000 * SECOND);
    assert_eq!(reply.code, 200);
    assert_eq!(reply.body, "{\"ok\":true,\"frameset_name\":\"T1\",\"queued\":true}");

    // 2. Dashboard shows the job queued
    let jobs = jobs_reply(&s);
    assert_eq!(
        jobs.body,
        "{\"queued\":[{\"id\":\"T1-1700000000\",\"frameset_name\":\"T1\"}],\"completed\":[]}"
    );

    // 3. The agent polls for pending jobs
    let req = request("GET /api/jobs/howick/pending HTTP/1.1\r\n\r\n");
    assert!(matches!(route(&req), Route::Pending));
    let job = s.agent_poll(1_700_000_001 * SECOND);
    let pending = pending_reply(&job, &Some(T1_CSV.trim().to_string()));
    assert_eq!(pending.code, 200);
    assert!(pending.body.contains("\"frameset_name\":\"T1\""));
    assert!(pending.body.contains("\"job_id\":\"T1-1700000000\""));
    let job_id = job.unwrap().id;

    // 4. The agent confirms delivery
    let req = request(&format!("POST /api/jobs/howick/{job_id}/complete HTTP/1.1\r\n\r\n"));
    let id = match route(&req) {
        Route::Complete(id) => id,
        _ => panic!("expected a completion"),
    };
    assert_eq!(id, job_id);
    let done = complete_reply(&mut s, &id, 1_700_000_002 * SECOND);
    assert_eq!(done.code, 200);

    // 5. Queue empty, job completed
    let jobs = jobs_reply(&s);
    assert_eq!(
        jobs.body,
        "{\"queued\":[],\"completed\":[{\"id\":\"T1-1700000000\",\"frameset_name\":\"T1\"}]}"
    );
    assert!(matches!(s.status, MachineStatus::Idle));
}

#[test]
fn sensor_push_records_reading() {
    let raw = "POST /api/sensor/coil HTTP/1.1\r\nContent-Type: application/json\r\n\r\n{\"weight_kg\":23.5}";
    let req = request(raw);
    assert!(matches!(route(&req), Route::SensorCoil));
    assert_eq!(sensor_weight_text(&req.body).as_deref(), Some("23.5"));
    let mut s = idle_state();
    // 23.5 kg on an 18 kg spool at 0.74 kg/m is about 7.4 m, below the 50 m alert length
    let ok = sensor_reply(&mut s, Some(true), 7 * SECOND);
    assert_eq!(ok.code, 200);
    assert_eq!(s.sensor_last_read_at, Some(7 * SECOND));
    assert!(s.coil_low_alert);
    let bad = sensor_reply(&mut s, None, 8 * SECOND);
    assert_eq!(bad.code, 400);
    assert_eq!(bad.body, "{\"error\":\"expected {\\\"weight_kg\\\":23.5}\"}");
    assert_eq!(s.sensor_last_read_at, Some(7 * SECOND));
    assert!(s.coil_low_alert);
    sensor_reply(&mut s, Some(false), 9 * SECOND);
    assert!(!s.coil_low_alert);
    // exponent form is read whole
    assert_eq!(sensor_weight_text(b"{\"weight_kg\":2.35e1}").as_deref(), Some("2.35e1"));
    assert_eq!(sensor_weight_text(b"{\"weight_kg\": -1.25E+0, \"x\":2}").as_deref(), Some("-1.25E+0"));
    // a sign belongs to the number only after an exponent mark, a mark only before digits
    assert_eq!(sensor_weight_text(b"{\"weight_kg\":+5}").as_deref(), Some(""));
    assert_eq!(sensor_weight_text(b"{\"weight_kg\":5e}").as_deref(), Some("5"));
    assert_eq!(sensor_weight_text(b"{\"weight_kg\":5e-}").as_deref(), Some("5"));
    assert_eq!(sensor_weight_text(b"{\"weight_kg\":5e-1}").as_deref(), Some("5e-1"));
    // a body without the field, or a number running to the end, gives no weight
    assert_eq!(sensor_weight_text(b"{\"weight\":1}"), None);
    assert_eq!(sensor_weight_text(b"{\"weight_kg\":23.5"), None);
    assert_eq!(sensor_weight_text(&[0xff, 0xfe]), None);
}

#[test]
fn request_parsing() {
    let req = request("GET  /jobs  HTTP/1.1\r\nX-Filename:  a b.csv \r\n\r\nbody");
    assert_eq!(req.method, "GET");
    assert_eq!(req.path, "/jobs");
    assert_eq!(req.lines, vec!["GET  /jobs  HTTP/1.1".to_string(), "X-Filename:  a b.csv ".to_string()]);
    assert_eq!(req.body, b"body".to_vec());
    // no blank line: everything is the header block, the body is empty
    let req = request("POST /upload");
    assert_eq!(req.method, "POST");
    assert_eq!(req.path, "/upload");
    assert!(req.body.is_empty());
    // an empty request
    let req = request("");
    assert_eq!(req.method, "");
    assert_eq!(req.path, "/");
    // a body shorter than the blank line
    let req = request("GET / HTTP/1.1\r\n\r\n");
    assert!(req.body.is_empty());
    // non-ASCII before the blank line shifts the byte offset of the body
    let req = request("GET /é HTTP/1.1\r\n\r\nxy");
    assert_eq!(req.path, "/é");
    assert_eq!(req.body, b"xy".to_vec());
    // invalid UTF-8 and no blank line: the cut falls inside a character
    assert!(parse_request(&[b'G', 0xff]).is_none());
}

#[test]
fn routes() {
    let r = |raw: &str| route(&request(raw));
    assert!(matches!(r("GET / HTTP/1.1\r\n\r\n"), Route::Redirect));
    assert!(matches!(r("GET /upload HTTP/1.1\r\n\r\n"), Route::Dashboard));
    assert!(matches!(r("GET /status? HTTP/1.1\r\n\r\n"), Route::Status));
    assert!(matches!(r("GET /jobs HTTP/1.1\r\n\r\n"), Route::Jobs));
    assert!(matches!(r("POST /api/jobs/howick/x-1/error HTTP/1.1\r\n\r\n"), Route::AgentError));
    assert!(matches!(r("PUT /health HTTP/1.1\r\n\r\n"), Route::NotFound));
    assert!(matches!(r("POST /api/jobs/howick/pending HTTP/1.1\r\n\r\n"), Route::NotFound));
    match r("POST /api/jobs/howick/a/complete/complete HTTP/1.1\r\n\r\n") {
        Route::Complete(id) => assert_eq!(id, "a"),
        _ => panic!("expected a completion"),
    }
}

#[test]
fn upload_rejections_and_names() {
    let req = request("POST /upload HTTP/1.1\r\n\r\nnot a csv");
    match plan_upload(&req) {
        Err(reply) => {
            assert_eq!(reply.code, 400);
            assert!(reply.body.contains("not a valid Howick CSV"));
        }
        Ok(_) => panic!("should be rejected"),
    }
    let req = request("POST /upload HTTP/1.1\r\n\r\n   ");
    assert!(plan_upload(&req).is_err());
    // no header: upload.csv
    let req = request("POST /upload HTTP/1.1\r\n\r\nUNIT,MILLIMETRE");
    let plan = plan_upload(&req).ok().unwrap();
    assert_eq!(plan.filename, "upload.csv");
    assert_eq!(plan.frameset_name, "upload");
    // a name without .csv gets it; unsafe characters are dropped
    let req = request("POST /upload HTTP/1.1\r\nx-filename: ../W 1\r\n\r\nUNIT");
    let plan = plan_upload(&req).ok().unwrap();
    assert_eq!(plan.filename, "..W1.csv");
    assert_eq!(plan.frameset_name, "..W1");
    // the stored name never leaves the job directory
    for name in ["../../etc/passwd", "..", ".", "a\\b/c.csv", "/abs"] {
        let raw = format!("POST /upload HTTP/1.1\r\nX-Filename: {name}\r\n\r\nUNIT");
        let plan = plan_upload(&request(&raw)).ok().unwrap();
        assert!(plan.filename.ends_with(".csv"));
        assert!(!plan.filename.contains('/') && !plan.filename.contains('\\'));
        assert!(plan.filename != "." && plan.filename != "..");
    }
}

#[test]
fn sanitising_file_names() {
    assert_eq!(sanitise_filename("T1.csv"), "T1.csv");
    assert_eq!(sanitise_filename("../../etc/passwd"), "....etcpasswd");
    assert_eq!(sanitise_filename("Wänd_2-b.csv"), "Wänd_2-b.csv");
    assert_eq!(sanitise_filename(&sanitise_filename("a /b\\c")), sanitise_filename("a /b\\c"));
}

#[test]
fn replies_on_the_wire() {
    let text = response_text(&redirect_reply());
    assert_eq!(
        text,
        "HTTP/1.1 301 Moved Permanently\r\nContent-Type: text/plain\r\nAccess-Control-Allow-Origin: *\r\n\
Content-Length: 0\r\nConnection: close\r\nLocation: /dashboard\r\n\r\n"
    );
    let text = response_text(&not_found_reply());
    assert!(text.starts_with("HTTP/1.1 404 Not Found\r\n"));
    assert!(text.ends_with("\r\n\r\n{\"error\":\"not found\"}"));
    let reply = Reply { code: 200, content_type: "application/json", body: "é".to_string() };
    assert!(response_text(&reply).contains("Content-Length: 2\r\n"));
    let odd = Reply { code: 418, content_type: "text/plain", body: String::new() };
    assert!(response_text(&odd).starts_with("HTTP/1.1 404 Not Found\r\n"));
}

/// Reads the inside of a JSON string literal (the simple escapes only).
fn json_unescape(s: &str) -> String {
    let mut out = String::new();
    let mut chars = s.chars();
    while let Some(c) = chars.next() {
        if c == '\\' {
            match chars.next() {
                Some('n') => out.push('\n'),
                Some('r') => out.push('\r'),
                Some('t') => out.push('\t'),
                Some(other) => out.push(other),
                None => panic!("dangling escape"),
            }
        } else {
            assert!(c != '"', "unescaped quote");
            out.push(c);
        }
    }
    out
}

#[test]
fn pending_json_decodes_to_the_job() {
    let csv = "UNIT,MILLIMETRE\r\nCOMPONENT,\"T1-1\",a\\b\n";
    let body = pending_job_json("dev-001", "T1", csv);
    let prefix = "{\"jobs\":[{\"job_id\":\"dev-001\",\"frameset_name\":\"T1\",\"csv\":\"";
    assert!(body.starts_with(prefix));
    assert!(body.ends_with("\"}]}"));
    let inner = &body[prefix.len()..body.len() - 4];
    assert_eq!(json_unescape(inner), csv.replace('\r', ""));
}

#[test]
fn pending_replies_and_escaping() {
    assert_eq!(escape_csv("a\"b\\c\r\nd"), "a\\\"b\\\\c\\nd");
    assert!(!escape_csv(T1_CSV).contains('\n'));
    assert_eq!(escape_csv("UNIT,MILLIMETRE"), "UNIT,MILLIMETRE");
    let empty = pending_reply(&None, &None);
    assert_eq!((empty.code, empty.body.as_str()), (200, "{\"jobs\":[]}"));
    let mut s = idle_state();
    assert!(s.agent_poll(1).is_none());
    assert_eq!(s.agent_last_seen_at, Some(1));
    let job = Some(opcua_howick::machine::Job::new("j".into(), "W1".into(), "p".into(), 0));
    let failed = pending_reply(&job, &None);
    assert_eq!((failed.code, failed.body.as_str()), (500, "{\"error\":\"csv read failed\"}"));
    let served = pending_reply(&job, &Some("UNIT\r\nX".to_string()));
    assert_eq!(
        served.body,
        "{\"jobs\":[{\"job_id\":\"j\",\"frameset_name\":\"W1\",\"csv\":\"UNIT\\nX\"}]}"
    );
}

#[test]
fn agent_errors_and_unknown_completions() {
    let mut s = idle_state();
    s.queue_upload(opcua_howick::machine::Job::new("j".into(), "W1".into(), String::new(), 1), 1);
    let reply = agent_error_reply(&mut s, b"  USB write failed \n", 3);
    assert_eq!(reply.code, 200);
    assert_eq!(s.agent_last_error, "USB write failed");
    // an error report touches nothing else
    assert_eq!(s.job_queue.len(), 1);
    assert_eq!(s.last_upload_at, Some(1));
    assert!(matches!(s.status, MachineStatus::Idle));
    s.job_queue.clear();
    agent_error_reply(&mut s, &[0xff], 4);
    assert_eq!(s.agent_last_error, "unknown");
    assert_eq!(s.agent_last_seen_at, Some(4));
    let reply = complete_reply(&mut s, "nope", 5);
    assert_eq!(reply.body, "{\"ok\":true}");
    assert!(s.completed_jobs.is_empty());
    assert_eq!(s.agent_last_seen_at, Some(5));
}

#[test]
fn status_with_jobs_and_times() {
    let mut s = idle_state();
    s.mark_running("W1".to_string());
    let req = request("POST /upload HTTP/1.1\r\nX-Filename: W1\r\n\r\nUNIT,MILLIMETRE");
    let plan = plan_upload(&req).ok().unwrap();
    finish_upload(&mut s, &plan, "in/W1.csv".into(), 10 * SECOND);
    s.agent_poll(12 * SECOND + 1);
    let reply = status_reply(&s, "v", "7.43", true, 15 * SECOND);
    assert!(reply.body.contains("\"status\":\"Running\",\"current_job\":\"W1\""));
    assert!(reply.body.contains("\"queue_depth\":1,\"coil_remaining\":7.43,\"coil_low_alert\":true"));
    assert!(reply.body.contains("\"last_upload_secs_ago\":5"));
    assert!(reply.body.contains("\"agent_last_seen_secs_ago\":2"));
    assert_eq!(ago_secs(Some(10), 5), None);
    assert_eq!(ago_secs(None, 5), None);
    assert_eq!(ago_secs(Some(SECOND / 2), SECOND + SECOND / 4), Some(0));
    assert_eq!(job_id("T1", 42 * SECOND + 999), "T1-42");
    assert_eq!(timestamp_id(1_700_000_000 * SECOND + 5), "1700000000");
    assert_eq!(timestamp_id(0), "0");
}

#[test]
fn jobs_list_keeps_ten_newest_completions() {
    let mut s = idle_state();
    for i in 0..12u128 {
        let job = opcua_howick::machine::Job::new(format!("j{i}"), format!("F{i}"), String::new(), i);
        s.record_delivery(job);
    }
    let body = jobs_reply(&s).body;
    assert!(body.starts_with("{\"queued\":[],\"completed\":[{\"id\":\"j11\""));
    assert!(body.contains("{\"id\":\"j2\",\"frameset_name\":\"F2\"}]}"));
    assert!(!body.contains("\"j1\""));
}

#[test]
fn json_fields() {
    assert_eq!(extract_json_number("{\"weight_kg\": -1.5 }", "weight_kg").as_deref(), Some("-1.5"));
    assert_eq!(extract_json_number("{\"weight_kg\":\"x\"}", "weight_kg").as_deref(), Some(""));
    assert_eq!(extract_json_number("{\"weight_kg\" 1}", "weight_kg"), None);
    assert_eq!(extract_json_string("{\"name\" : \"T1\", \"x\":1}", "name").as_deref(), Some("T1"));
    assert_eq!(extract_json_string("{\"name\":1}", "name"), None);
    assert_eq!(extract_json_string("{\"name\":\"open", "name"), None);
}
