//! JSON-RPC 2.0 messages.
use vstd::prelude::*;
use crate::json::{Json, JsonNumber, JsonNumberView, JsonView};
use crate::text::{decimal, decimal_string};

verus! {

/// A JSON-RPC 2.0 request.
#[derive(Debug)]
pub struct JsonRpcRequest {
    pub id: u64,
    pub method: String,
    pub params: Option<Json>,
}

/// A JSON-RPC 2.0 notification (no id).
#[derive(Debug)]
pub struct JsonRpcNotification {
    pub method: String,
    pub params: Option<Json>,
}

/// A whole number as JSON has it.
pub open spec fn number_view(n: u64) -> JsonView {
    JsonView::Number(
        JsonNumberView {
            text: decimal(n as nat),
            unsigned: Some(n),
            shown: Some(decimal(n as nat)),
        },
    )
}

/// A whole number as JSON has it.
pub fn number(n: u64) -> (r: Json)
    ensures
        r.deep_view() == number_view(n),
{
    let text = decimal_string(n);
    let shown = decimal_string(n);
    Json::Number(JsonNumber { text, unsigned: Some(n), shown: Some(shown) })
}

/// A request as JSON has it.
pub open spec fn request_view(id: u64, method: Seq<char>, params: Option<JsonView>) -> JsonView {
    let head = seq![
        ("jsonrpc"@, JsonView::Str("2.0"@)),
        ("id"@, number_view(id)),
        ("method"@, JsonView::Str(method)),
    ];
    JsonView::Object(
        match params {
            Some(p) => head.push(("params"@, p)),
            None => head,
        },
    )
}

/// A notification as JSON has it.
pub open spec fn notification_view(method: Seq<char>, params: Option<JsonView>) -> JsonView {
    let head = seq![("jsonrpc"@, JsonView::Str("2.0"@)), ("method"@, JsonView::Str(method))];
    JsonView::Object(
        match params {
            Some(p) => head.push(("params"@, p)),
            None => head,
        },
    )
}

impl JsonRpcRequest {
    /// A request for a method.
    pub fn new(id: u64, method: &str, params: Option<Json>) -> (r: Self)
        ensures
            r.id == id,
            r.method@ == method@,
            r.params == params,
    {
        JsonRpcRequest { id, method: method.to_owned(), params }
    }

    /// The request as JSON has it.
    pub fn into_json(self) -> (r: Json)
        ensures
            r.deep_view() == request_view(self.id, self.method@, self.params.deep_view()),
    {
        let ghost want = request_view(self.id, self.method@, self.params.deep_view());
        let mut entries: Vec<(String, Json)> = Vec::new();
        entries.push(("jsonrpc".to_owned(), Json::string("2.0")));
        entries.push(("id".to_owned(), number(self.id)));
        entries.push(("method".to_owned(), Json::text(self.method)));
        if let Some(p) = self.params {
            entries.push(("params".to_owned(), p));
        }
        let r = Json::Object(entries);
        assert(r.deep_view()->Object_0 =~= want->Object_0);
        r
    }
}

impl JsonRpcNotification {
    /// A notification of a method.
    pub fn new(method: &str, params: Option<Json>) -> (r: Self)
        ensures
            r.method@ == method@,
            r.params == params,
    {
        JsonRpcNotification { method: method.to_owned(), params }
    }

    /// The notification as JSON has it.
    pub fn into_json(self) -> (r: Json)
        ensures
            r.deep_view() == notification_view(self.method@, self.params.deep_view()),
    {
        let ghost want = notification_view(self.method@, self.params.deep_view());
        let mut entries: Vec<(String, Json)> = Vec::new();
        entries.push(("jsonrpc".to_owned(), Json::string("2.0")));
        entries.push(("method".to_owned(), Json::text(self.method)));
        if let Some(p) = self.params {
            entries.push(("params".to_owned(), p));
        }
        let r = Json::Object(entries);
        assert(r.deep_view()->Object_0 =~= want->Object_0);
        r
    }
}

/// A request carries its id, its method and its parameters, where it has any.
pub proof fn law_request_carries(id: u64, method: Seq<char>, params: JsonView)
    ensures
        ({
            let r = request_view(id, method, Some(params));
            let bare = request_view(id, method, None);
            &&& r.get("jsonrpc"@) == Some(JsonView::Str("2.0"@))
            &&& r.get("id"@) is Some
            &&& r.get("id"@)->0.as_u64() == Some(id)
            &&& r.get("method"@) == Some(JsonView::Str(method))
            &&& r.get("params"@) == Some(params)
            &&& bare.get("id"@) is Some
            &&& bare.get("id"@)->0.as_u64() == Some(id)
            &&& bare.get("method"@) == Some(JsonView::Str(method))
            &&& bare.get("params"@) is None
        }),
{
    reveal_strlit("jsonrpc");
    reveal_strlit("id");
    reveal_strlit("method");
    reveal_strlit("params");
    assert("jsonrpc"@.len() == 7 && "id"@.len() == 2 && "method"@.len() == 6 && "params"@.len() == 6);
    assert("method"@[0] == 'm' && "params"@[0] == 'p');
    reveal_with_fuel(crate::json::entry_from, 5);
}

/// A notification carries its method and its parameters, and no id.
pub proof fn law_notification_carries(method: Seq<char>, params: JsonView)
    ensures
        ({
            let r = notification_view(method, Some(params));
            let bare = notification_view(method, None);
            &&& r.get("jsonrpc"@) == Some(JsonView::Str("2.0"@))
            &&& r.get("id"@) is None
            &&& r.get("method"@) == Some(JsonView::Str(method))
            &&& r.get("params"@) == Some(params)
            &&& bare.get("id"@) is None
            &&& bare.get("method"@) == Some(JsonView::Str(method))
            &&& bare.get("params"@) is None
        }),
{
    reveal_strlit("jsonrpc");
    reveal_strlit("id");
    reveal_strlit("method");
    reveal_strlit("params");
    assert("jsonrpc"@.len() == 7 && "id"@.len() == 2 && "method"@.len() == 6 && "params"@.len() == 6);
    assert("method"@[0] == 'm' && "params"@[0] == 'p');
    reveal_with_fuel(crate::json::entry_from, 4);
}

/// A number reads as itself, and is written in decimal.
pub proof fn law_numbers_as_they_are(n: u64)
    ensures
        number_view(n).as_u64() == Some(n),
        number_view(n)->Number_0.text == decimal(n as nat),
        number_view(n)->Number_0.shown == Some(decimal(n as nat)),
{
}

} // verus!
