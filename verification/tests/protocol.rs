use codetrackr::protocol::{dispatch, reply_error, route_method, text_document_sync, IdKind, Reply, Route};

#[test]
fn route_method_recognises_lsp_methods() {
    assert_eq!(route_method(Some("initialize")), Route::Initialize);
    assert_eq!(route_method(Some("initialized")), Route::Initialized);
    assert_eq!(route_method(Some("textDocument/didOpen")), Route::DidOpen);
    assert_eq!(route_method(Some("textDocument/didChange")), Route::DidChange);
    assert_eq!(route_method(Some("textDocument/didSave")), Route::DidSave);
    assert_eq!(route_method(Some("shutdown")), Route::Shutdown);
    assert_eq!(route_method(Some("exit")), Route::Exit);
    assert_eq!(route_method(Some("Shutdown")), Route::Other);
    assert_eq!(route_method(Some("textDocument/hover")), Route::Other);
    assert_eq!(route_method(None), Route::Other);
}

#[test]
fn dispatch_answers_and_stops() {
    let d = dispatch(Route::Initialize, IdKind::NumberOrString);
    assert_eq!(d.reply, Some(Reply::Capabilities));
    assert!(!d.stop);
    let d = dispatch(Route::Shutdown, IdKind::NumberOrString);
    assert_eq!(d.reply, Some(Reply::NullResult));
    assert!(d.stop);
    let d = dispatch(Route::Exit, IdKind::Missing);
    assert_eq!(d.reply, None);
    assert!(d.stop);
    let d = dispatch(Route::DidSave, IdKind::Missing);
    assert_eq!(d.reply, None);
    assert!(!d.stop);
}

#[test]
fn unknown_requests_get_method_not_found() {
    assert_eq!(dispatch(Route::Other, IdKind::NumberOrString).reply, Some(Reply::MethodNotFound));
    assert_eq!(dispatch(Route::Other, IdKind::Missing).reply, None);
    assert_eq!(dispatch(Route::Other, IdKind::Other).reply, None);
    assert_eq!(reply_error(Reply::MethodNotFound), Some((-32601, "Method not found".to_string())));
    assert_eq!(reply_error(Reply::Capabilities), None);
    assert_eq!(reply_error(Reply::NullResult), None);
}

#[test]
fn capabilities_sync_full_text() {
    let s = text_document_sync();
    assert!(s.open_close);
    assert_eq!(s.change, 1);
    assert!(!s.save_include_text);
}
