use vstd::prelude::*;
use vstd::string::StringExecFns;

verus! {

/// A greeting request: who to greet.
pub struct HelloRequest {
    pub name: String,
}

/// A greeting reply.
pub struct HelloResponse {
    pub ok: bool,
    pub message: String,
}

/// The greeting service.
pub struct HelloService {}

impl HelloService {
    /// Greets the requester: always succeeds, with the message "hello: " followed by the name.
    pub fn send_message(&self, request: HelloRequest) -> (r: HelloResponse)
        ensures
            r.ok,
            r.message@ == "hello: "@ + request.name@,
    {
        let mut message = String::from_str("hello: ");
        message.append(request.name.as_str());
        HelloResponse { ok: true, message }
    }
}

} // verus!
