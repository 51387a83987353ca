use hotdownloader_core::server::{request_gate, route_request, HttpMethod, RequestGate, Route};

#[test]
fn api_routes_need_the_token_and_static_files_do_not() {
    let tasks = route_request(HttpMethod::Get, "/api/tasks");
    assert_eq!(request_gate(&tasks, Some("secret"), Some("Bearer secret")), RequestGate::Serve);
    assert_eq!(request_gate(&tasks, Some("secret"), Some("Bearer wrong")), RequestGate::Unauthorized);
    assert_eq!(request_gate(&tasks, Some("secret"), Some("secret")), RequestGate::Unauthorized);
    assert_eq!(request_gate(&tasks, Some("secret"), None), RequestGate::Unauthorized);
    assert_eq!(request_gate(&tasks, None, None), RequestGate::Serve);
    assert_eq!(request_gate(&Route::Static, Some("secret"), None), RequestGate::ServeStatic);
    assert_eq!(request_gate(&Route::StaticMethodNotAllowed, Some("secret"), None), RequestGate::StaticMethodNotAllowed);
}
