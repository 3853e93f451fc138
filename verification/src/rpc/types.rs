use vstd::prelude::*;

use crate::errors::{Error, ErrorView};
use crate::ident::fresh_msg_id;
use crate::json::{json_model, Json, JsonModel};

verus! {

/// What a failed request is answered with: what went wrong, and the chain
/// of its causes, the nearest first.
#[derive(Debug, PartialEq, Eq)]
pub struct ErrorMessage {
    pub error: String,
    pub chain: Vec<String>,
}

/// The response value of an error envelope: an object with the members
/// `error`, a string, and `chain`, an array of strings.
pub open spec fn error_report(error: Seq<char>, chain: Seq<Seq<char>>) -> JsonModel {
    JsonModel::Object(
        seq![("error"@, JsonModel::Str(error)), ("chain"@, JsonModel::strings(chain))],
    )
}

impl ErrorMessage {
    /// An error without known causes.
    pub fn plain(error: String) -> (r: ErrorMessage)
        ensures
            r.error@ == error@,
            r.chain.deep_view() == Seq::<Seq<char>>::empty(),
    {
        let r = ErrorMessage { error, chain: Vec::new() };
        assert(r.chain.deep_view() =~= Seq::<Seq<char>>::empty());
        r
    }

    /// The error as the response value of an envelope.
    pub fn to_json(&self) -> (r: Json)
        ensures
            r.deep_view() == error_report(self.error@, self.chain.deep_view()),
    {
        let chain = Json::from_strings(&self.chain);
        let mut members: Vec<(String, Json)> = Vec::new();
        members.push(("error".to_owned(), Json::Str(self.error.clone())));
        members.push(("chain".to_owned(), chain));
        let r = Json::Object(members);
        proof {
            reveal_with_fuel(json_model, 2);
            assert(json_model(r)->Object_0 =~= error_report(
                self.error@,
                self.chain.deep_view(),
            )->Object_0);
        }
        r
    }
}

/// One envelope of the RPC protocol: a call of the method `call` while
/// `resp` is absent, its response once `resp` is present.
#[derive(Debug, PartialEq, Eq)]
pub struct Message {
    pub call: String,
    pub args: Json,
    pub resp: Option<Json>,
    pub msg_id: String,
}

pub ghost struct CallView {
    pub call: Seq<char>,
    pub args: JsonModel,
    pub resp: Option<JsonModel>,
    pub msg_id: Seq<char>,
}

impl DeepView for Message {
    type V = CallView;

    open spec fn deep_view(&self) -> CallView {
        CallView {
            call: self.call@,
            args: self.args.deep_view(),
            resp: self.resp.deep_view(),
            msg_id: self.msg_id@,
        }
    }
}

impl CallView {
    /// Whether the envelope is a response.
    pub open spec fn is_response(self) -> bool {
        self.resp is Some
    }

    /// The envelope with `resp` as its response. The id stays.
    pub open spec fn answered(self, resp: JsonModel) -> CallView {
        CallView { resp: Some(resp), ..self }
    }

    /// The error envelope of this call for `error`: the same id, and the
    /// report of the error as the response.
    pub open spec fn failed(self, error: ErrorView) -> CallView {
        self.answered(error_report(error.text(), error.chain()))
    }
}

impl Clone for Message {
    fn clone(&self) -> (r: Message)
        ensures
            r.deep_view() == self.deep_view(),
    {
        Message {
            call: self.call.clone(),
            args: self.args.clone(),
            resp: self.resp.clone(),
            msg_id: self.msg_id.clone(),
        }
    }
}

impl Message {
    /// A call of `call` with `args`, under an id of its own: a random UUID
    /// in its hyphenated form.
    pub fn new(call: String, args: Json) -> (r: Message)
        ensures
            r.deep_view().call == call@,
            r.deep_view().args == args.deep_view(),
            r.deep_view().resp is None,
            r.deep_view().msg_id.len() == 36,
    {
        Message { call, args, resp: None, msg_id: fresh_msg_id() }
    }

    /// Whether the envelope is a response.
    pub fn is_response(&self) -> (r: bool)
        ensures
            r == self.deep_view().is_response(),
    {
        self.resp.is_some()
    }

    /// Turns the call into its response `resp`.
    pub fn into_answered(self, resp: Json) -> (r: Message)
        ensures
            r.deep_view() == self.deep_view().answered(resp.deep_view()),
    {
        let mut r = self;
        r.resp = Some(resp);
        r
    }

    /// Turns the call into its error envelope for `error`.
    pub fn into_failed(self, error: &Error) -> (r: Message)
        ensures
            r.deep_view() == self.deep_view().failed(error.deep_view()),
    {
        let report = error.report().to_json();
        self.into_answered(report)
    }
}

} // verus!
