use microstatus::server::{after_read, start_request, Phase, ReadOutcome, Response, Status, Step};

fn read_path(step: &Step) -> (String, Phase) {
    match step {
        Step::Read { path, phase } => (path.clone(), *phase),
        Step::Respond(_) => panic!("expected a read"),
    }
}

fn reply(step: Step) -> Response {
    match step {
        Step::Respond(r) => r,
        Step::Read { .. } => panic!("expected a reply"),
    }
}

#[test]
fn get_root_serves_index_with_length() {
    let step = start_request("GET / HTTP/1.1\r\nHost: x\r\n\r\n");
    assert_eq!(read_path(&step), ("index.html".to_string(), Phase::Requested));
    let body = "<html>hi é</html>".to_string();
    let r = reply(after_read(Phase::Requested, ReadOutcome::Found(body.clone())));
    assert_eq!(r.status, Status::Success);
    let wire = r.encode();
    assert_eq!(wire, format!("HTTP/1.1 200 OK\r\nContent-Length: {}\r\n\r\n{}", body.len(), body));
    assert!(wire.contains("Content-Length: 18\r\n"));
}

#[test]
fn missing_file_without_404_page_gives_literal() {
    let step = start_request("GET /missing HTTP/1.1\r\n\r\n");
    assert_eq!(read_path(&step), ("missing".to_string(), Phase::Requested));
    let next = after_read(Phase::Requested, ReadOutcome::NotFound);
    assert_eq!(read_path(&next), ("404.html".to_string(), Phase::NotFoundPage));
    let r = reply(after_read(Phase::NotFoundPage, ReadOutcome::NotFound));
    assert_eq!(r.status, Status::NotFound);
    assert_eq!(r.encode(), "HTTP/1.1 404 NOT FOUND\r\nContent-Length: 13\r\n\r\n404 Not Found");
}

#[test]
fn missing_file_with_404_page_serves_it() {
    let r = reply(after_read(Phase::NotFoundPage, ReadOutcome::Found("gone".to_string())));
    assert_eq!(r.status, Status::NotFound);
    assert_eq!(r.body, "gone");
    let r = reply(after_read(Phase::NotFoundPage, ReadOutcome::Failed));
    assert_eq!(r.body, "404 Not Found");
}

#[test]
fn post_is_not_allowed() {
    let r = reply(start_request("POST / HTTP/1.1\r\n\r\n"));
    assert_eq!(r.status, Status::MethodNotAllowed);
    assert_eq!(r.encode(), "HTTP/1.1 405 METHOD NOT ALLOWED\r\nContent-Length: 22\r\n\r\n405 Method Not Allowed");
}

#[test]
fn no_method_is_bad_request() {
    let r = reply(start_request(""));
    assert_eq!(r.status, Status::BadRequest);
    assert_eq!(r.encode(), "HTTP/1.1 400 BAD REQUEST\r\nContent-Length: 15\r\n\r\n400 Bad Request");
    assert_eq!(reply(start_request("   \r\nGET / HTTP/1.1")).status, Status::BadRequest);
}

#[test]
fn get_without_path_or_with_traversal_is_bad_request() {
    assert_eq!(reply(start_request("GET")).status, Status::BadRequest);
    assert_eq!(reply(start_request("GET ../secret HTTP/1.1")).status, Status::BadRequest);
    assert_eq!(reply(start_request("GET /../etc/passwd HTTP/1.1")).status, Status::BadRequest);
    assert_eq!(reply(start_request("GET /a/.. HTTP/1.1")).status, Status::BadRequest);
    let ok = start_request("GET /a..b/c.html HTTP/1.1");
    assert_eq!(read_path(&ok), ("a..b/c.html".to_string(), Phase::Requested));
}

#[test]
fn nested_path_is_served_relative() {
    let step = start_request("GET /history/My_Site.html HTTP/1.1\r\n");
    assert_eq!(read_path(&step), ("history/My_Site.html".to_string(), Phase::Requested));
}

#[test]
fn read_failure_is_internal_error() {
    let r = reply(after_read(Phase::Requested, ReadOutcome::Failed));
    assert_eq!(r.status, Status::InternalError);
    assert_eq!(
        r.encode(),
        "HTTP/1.1 500 INTERNAL SERVER ERROR\r\nContent-Length: 25\r\n\r\n500 Internal Server Error"
    );
}

#[test]
fn absolute_paths_are_bad_requests() {
    assert_eq!(reply(start_request("GET //etc/passwd HTTP/1.1\r\n")).status, Status::BadRequest);
    assert_eq!(reply(start_request("GET ///etc/passwd HTTP/1.1")).status, Status::BadRequest);
    let ok = start_request("GET /a/b/index.html HTTP/1.1");
    assert_eq!(read_path(&ok), ("a/b/index.html".to_string(), Phase::Requested));
}

#[test]
fn colons_and_backslashes_are_served() {
    let step = start_request("GET /a:b HTTP/1.1");
    assert_eq!(read_path(&step), ("a:b".to_string(), Phase::Requested));
    let step = start_request("GET /history/db:5432.html HTTP/1.1\r\n");
    assert_eq!(read_path(&step), ("history/db:5432.html".to_string(), Phase::Requested));
    let step = start_request("GET /a\\b HTTP/1.1");
    assert_eq!(read_path(&step), ("a\\b".to_string(), Phase::Requested));
    let next = after_read(Phase::Requested, ReadOutcome::NotFound);
    assert_eq!(read_path(&next), ("404.html".to_string(), Phase::NotFoundPage));
}

#[test]
fn history_page_of_service_is_reachable() {
    let path = microstatus::render::history_path("db:5432 main");
    let step = start_request(&format!("GET /{path} HTTP/1.1\r\n"));
    assert_eq!(read_path(&step), (path, Phase::Requested));
}
