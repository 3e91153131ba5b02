//! The JSON-RPC methods the language server answers, and how.
use vstd::prelude::*;

use crate::text::str_equal;

verus! {

/// The methods the server tells apart.
#[derive(PartialEq, Eq, Structural, Clone, Copy, Debug)]
pub enum Route {
    Initialize,
    Initialized,
    DidOpen,
    DidChange,
    DidSave,
    Shutdown,
    Exit,
    Other,
}

/// What the `id` of a message is.
#[derive(PartialEq, Eq, Structural, Clone, Copy, Debug)]
pub enum IdKind {
    /// No `id`: a notification.
    Missing,
    /// A number or a string.
    NumberOrString,
    /// Any other JSON value.
    Other,
}

/// A reply to a request.
#[derive(PartialEq, Eq, Structural, Clone, Copy, Debug)]
pub enum Reply {
    /// The server's capabilities, as the result of `initialize`.
    Capabilities,
    /// A `null` result.
    NullResult,
    /// The error "Method not found".
    MethodNotFound,
}

/// What to do with one message.
#[derive(PartialEq, Eq, Structural, Clone, Copy, Debug)]
pub struct Dispatch {
    /// The reply to send, if any.
    pub reply: Option<Reply>,
    /// Whether the session ends after this message.
    pub stop: bool,
}

/// The text-document synchronisation the server asks for.
#[derive(PartialEq, Eq, Structural, Clone, Copy, Debug)]
pub struct TextDocumentSync {
    pub open_close: bool,
    /// 1: the full text on every change.
    pub change: u8,
    pub save_include_text: bool,
}

pub open spec fn route_of(method: Option<Seq<char>>) -> Route {
    match method {
        Some(m) => if m == "initialize"@ {
            Route::Initialize
        } else if m == "initialized"@ {
            Route::Initialized
        } else if m == "textDocument/didOpen"@ {
            Route::DidOpen
        } else if m == "textDocument/didChange"@ {
            Route::DidChange
        } else if m == "textDocument/didSave"@ {
            Route::DidSave
        } else if m == "shutdown"@ {
            Route::Shutdown
        } else if m == "exit"@ {
            Route::Exit
        } else {
            Route::Other
        },
        None => Route::Other,
    }
}

pub open spec fn dispatch_of(route: Route, id: IdKind) -> Dispatch {
    match route {
        Route::Initialize => Dispatch { reply: Some(Reply::Capabilities), stop: false },
        Route::Shutdown => Dispatch { reply: Some(Reply::NullResult), stop: true },
        Route::Exit => Dispatch { reply: None, stop: true },
        Route::Other => Dispatch {
            reply: if id == IdKind::NumberOrString {
                Some(Reply::MethodNotFound)
            } else {
                None
            },
            stop: false,
        },
        _ => Dispatch { reply: None, stop: false },
    }
}

/// The route for a message's `method` (`None` when it has none).
pub fn route_method(method: Option<&str>) -> (r: Route)
    ensures
        r == route_of(
            match method {
                Some(m) => Some(m@),
                None => None,
            },
        ),
{
    match method {
        Some(m) => if str_equal(m, "initialize") {
            Route::Initialize
        } else if str_equal(m, "initialized") {
            Route::Initialized
        } else if str_equal(m, "textDocument/didOpen") {
            Route::DidOpen
        } else if str_equal(m, "textDocument/didChange") {
            Route::DidChange
        } else if str_equal(m, "textDocument/didSave") {
            Route::DidSave
        } else if str_equal(m, "shutdown") {
            Route::Shutdown
        } else if str_equal(m, "exit") {
            Route::Exit
        } else {
            Route::Other
        },
        None => Route::Other,
    }
}

/// What to do with a message on `route` whose id is `id`: `initialize` is
/// answered with the capabilities, `shutdown` with `null` and ends the session,
/// `exit` ends it silently, an unknown method with a number or string id gets
/// "Method not found", and everything else gets no reply.
pub fn dispatch(route: Route, id: IdKind) -> (d: Dispatch)
    ensures
        d == dispatch_of(route, id),
{
    match route {
        Route::Initialize => Dispatch { reply: Some(Reply::Capabilities), stop: false },
        Route::Shutdown => Dispatch { reply: Some(Reply::NullResult), stop: true },
        Route::Exit => Dispatch { reply: None, stop: true },
        Route::Other => Dispatch {
            reply: if id == IdKind::NumberOrString {
                Some(Reply::MethodNotFound)
            } else {
                None
            },
            stop: false,
        },
        _ => Dispatch { reply: None, stop: false },
    }
}

/// The error code and message of a reply that is an error.
pub fn reply_error(reply: Reply) -> (e: Option<(i64, String)>)
    ensures
        match reply {
            Reply::MethodNotFound => e matches Some((code, msg)) && code == -32601 && msg@
                == "Method not found"@,
            _ => e is None,
        },
{
    match reply {
        Reply::MethodNotFound => Some((-32601i64, "Method not found".to_owned())),
        _ => None,
    }
}

/// The document synchronisation announced in the capabilities: open and close
/// notifications, the full text on change, saves without their text.
pub fn text_document_sync() -> (s: TextDocumentSync)
    ensures
        s.open_close && s.change == 1 && !s.save_include_text,
{
    TextDocumentSync { open_close: true, change: 1, save_include_text: false }
}

/// Only `shutdown` and `exit` end a session.
pub proof fn lemma_only_shutdown_and_exit_stop(route: Route, id: IdKind)
    ensures
        dispatch_of(route, id).stop <==> (route == Route::Shutdown || route == Route::Exit),
{
}

/// A notification (a message without an id) is never answered with an error.
pub proof fn lemma_notifications_get_no_error(route: Route)
    ensures
        dispatch_of(route, IdKind::Missing).reply != Some(Reply::MethodNotFound),
{
}

/// Each of the seven method names has its own route, and no other name (nor a
/// missing one) gets any route but `Other`: a message ends the session through
/// `Exit` only when its method is exactly `exit`.
pub proof fn lemma_routes_are_exact_names(m: Seq<char>)
    ensures
        route_of(Some(m)) == Route::Initialize <==> m == "initialize"@,
        route_of(Some(m)) == Route::Initialized <==> m == "initialized"@,
        route_of(Some(m)) == Route::DidOpen <==> m == "textDocument/didOpen"@,
        route_of(Some(m)) == Route::DidChange <==> m == "textDocument/didChange"@,
        route_of(Some(m)) == Route::DidSave <==> m == "textDocument/didSave"@,
        route_of(Some(m)) == Route::Shutdown <==> m == "shutdown"@,
        route_of(Some(m)) == Route::Exit <==> m == "exit"@,
        route_of(None) == Route::Other,
{
    broadcast use vstd::string::group_string_axioms;

    reveal_strlit("initialize");
    reveal_strlit("initialized");
    reveal_strlit("textDocument/didOpen");
    reveal_strlit("textDocument/didChange");
    reveal_strlit("textDocument/didSave");
    reveal_strlit("shutdown");
    reveal_strlit("exit");
    assert("initialize"@.len() == 10);
    assert("initialized"@.len() == 11);
    assert("textDocument/didOpen"@.len() == 20);
    assert("textDocument/didChange"@.len() == 22);
    assert("textDocument/didSave"@.len() == 20);
    assert("shutdown"@.len() == 8);
    assert("exit"@.len() == 4);
    assert("textDocument/didOpen"@ != "textDocument/didSave"@) by {
        assert("textDocument/didOpen"@[16] != "textDocument/didSave"@[16]);
    }
}

/// Only `initialize`, `shutdown` and a request (a number or string id) for an
/// unknown method are answered, with the capabilities, `null` and "Method not
/// found" respectively; the session ends exactly on `shutdown` and `exit`.
pub proof fn lemma_dispatch_answers(route: Route, id: IdKind)
    ensures
        dispatch_of(route, id).reply == Some(Reply::Capabilities) <==> route == Route::Initialize,
        dispatch_of(route, id).reply == Some(Reply::NullResult) <==> route == Route::Shutdown,
        dispatch_of(route, id).reply == Some(Reply::MethodNotFound) <==> (route == Route::Other
            && id == IdKind::NumberOrString),
        dispatch_of(route, id).reply is None <==> !(route == Route::Initialize || route
            == Route::Shutdown || (route == Route::Other && id == IdKind::NumberOrString)),
        (route == Route::Initialized || route == Route::DidOpen || route == Route::DidChange
            || route == Route::DidSave) ==> dispatch_of(route, id) == (Dispatch {
            reply: None,
            stop: false,
        }),
        dispatch_of(route, id).stop <==> (route == Route::Shutdown || route == Route::Exit),
{
}

} // verus!
