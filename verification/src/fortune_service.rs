use vstd::prelude::*;
use vstd::string::StringExecFns;

use crate::errors::{Error, ErrorKind, ErrorView};
use crate::json::{Json, JsonModel};
use crate::rpc::dispatch::{Handle, LocalRpc};
use crate::rpc::service::{endpoints_view, install, Registry, Service};

verus! {

/// A service that tells fortunes. It has one method of each shape: with and
/// without arguments, with and without a response.
pub struct FortuneService {}

/// The fortune of `sign`.
pub open spec fn fortune_of(sign: Seq<char>) -> Seq<char> {
    if sign == "leo"@ {
        "latin for lion"@
    } else {
        "Horoscope unimplemented for sign '"@ + sign + "'"@
    }
}

/// The sign that the arguments of a fortune name: the string under `sign`
/// in an object. Otherwise, why the arguments are refused.
pub open spec fn sign_of(args: JsonModel) -> Result<Seq<char>, Seq<char>> {
    match args {
        JsonModel::Object(_) => match args.get("sign"@) {
            Some(JsonModel::Str(sign)) => Ok(sign),
            Some(_) => Err("invalid type: expected a string"@),
            None => Err("missing field `sign`"@),
        },
        _ => Err("invalid type: expected struct TellFortuneArgs"@),
    }
}

/// The response that carries `fortune`.
pub open spec fn fortune_response(fortune: Seq<char>) -> JsonModel {
    JsonModel::object1("fortune"@, JsonModel::Str(fortune))
}

/// What `tell_fortune` makes of `args`.
pub open spec fn told_fortune(args: JsonModel) -> Result<Option<JsonModel>, ErrorView> {
    match sign_of(args) {
        Ok(sign) => Ok(Some(fortune_response(fortune_of(sign)))),
        Err(cause) => Err(ErrorView::Io(cause)),
    }
}

/// What `deaf_fortune` makes of `args`: no response, unless it refuses them.
pub open spec fn deaf_to_fortune(args: JsonModel) -> Result<Option<JsonModel>, ErrorView> {
    match sign_of(args) {
        Ok(_) => Ok(None),
        Err(cause) => Err(ErrorView::Io(cause)),
    }
}

/// The methods of the fortune service.
pub open spec fn fortune_endpoints() -> Seq<(Seq<char>, Handle)> {
    seq![
        ("tell_fortune"@, Handle::Local(LocalRpc::TellFortune)),
        ("fake_fortune"@, Handle::Local(LocalRpc::FakeFortune)),
        ("deaf_fortune"@, Handle::Local(LocalRpc::DeafFortune)),
        ("ask_for_more_wishes"@, Handle::Local(LocalRpc::AskForMoreWishes)),
    ]
}

/// Reads the sign that the arguments of a fortune name.
pub fn read_sign(args: &Json) -> (r: Result<String, Error>)
    ensures
        match sign_of(args.deep_view()) {
            Ok(sign) => r is Ok && r->Ok_0@ == sign,
            Err(cause) => r is Err && r->Err_0.deep_view() == ErrorView::Io(cause),
        },
{
    match args {
        Json::Object(_) => match args.get("sign") {
            Some(value) => match value.as_str() {
                Some(sign) => Ok(sign.clone()),
                None => Err(
                    Error::from_kind(
                        ErrorKind::IoError("invalid type: expected a string".to_owned()),
                    ),
                ),
            },
            None => Err(Error::from_kind(ErrorKind::IoError("missing field `sign`".to_owned()))),
        },
        _ => Err(
            Error::from_kind(
                ErrorKind::IoError("invalid type: expected struct TellFortuneArgs".to_owned()),
            ),
        ),
    }
}

impl FortuneService {
    pub fn new() -> (r: FortuneService) {
        FortuneService {  }
    }

    /// The fortune of `sign`.
    pub fn generate_fortune(&self, sign: &str) -> (r: String)
        ensures
            r@ == fortune_of(sign@),
    {
        let leo = "leo".to_owned();
        let asked = sign.to_owned();
        if asked == leo {
            "latin for lion".to_owned()
        } else {
            let mut out = "Horoscope unimplemented for sign '".to_owned();
            out.append(sign);
            out.append("'");
            out
        }
    }

    /// The method `tell_fortune`: the fortune of the sign that `args` name.
    pub fn tell_fortune(&self, args: &Json) -> (r: Result<Option<Json>, Error>)
        ensures
            crate::rpc::dispatch::outcome_view(r) == told_fortune(args.deep_view()),
    {
        match read_sign(args) {
            Ok(sign) => {
                let fortune = self.generate_fortune(sign.as_str());
                Ok(Some(Json::object1("fortune", Json::Str(fortune))))
            },
            Err(error) => Err(error),
        }
    }

    /// The method `fake_fortune`: the same fortune for everybody.
    pub fn fake_fortune(&self) -> (r: Result<Option<Json>, Error>)
        ensures
            crate::rpc::dispatch::outcome_view(r) == Ok::<Option<JsonModel>, ErrorView>(
                Some(fortune_response("Bah"@)),
            ),
    {
        Ok(Some(Json::object1("fortune", Json::Str("Bah".to_owned()))))
    }

    /// The method `deaf_fortune`: reads the sign and answers nothing.
    pub fn deaf_fortune(&self, args: &Json) -> (r: Result<Option<Json>, Error>)
        ensures
            crate::rpc::dispatch::outcome_view(r) == deaf_to_fortune(args.deep_view()),
    {
        match read_sign(args) {
            Ok(_) => Ok(None),
            Err(error) => Err(error),
        }
    }

    /// The method `ask_for_more_wishes`: answers nothing.
    pub fn ask_for_more_wishes(&self) -> (r: Result<Option<Json>, Error>)
        ensures
            crate::rpc::dispatch::outcome_view(r) == Ok::<Option<JsonModel>, ErrorView>(None),
    {
        Ok(None)
    }
}

impl Service for FortuneService {
    open spec fn spec_name(&self) -> Seq<char> {
        "FortuneService"@
    }

    open spec fn spec_endpoints(&self) -> Seq<(Seq<char>, Handle)> {
        fortune_endpoints()
    }

    fn name(&self) -> (r: String) {
        "FortuneService".to_owned()
    }

    fn endpoints(&self) -> (r: Vec<(String, Handle)>) {
        let mut endpoints: Vec<(String, Handle)> = Vec::new();
        endpoints.push(("tell_fortune".to_owned(), Handle::Local(LocalRpc::TellFortune)));
        endpoints.push(("fake_fortune".to_owned(), Handle::Local(LocalRpc::FakeFortune)));
        endpoints.push(("deaf_fortune".to_owned(), Handle::Local(LocalRpc::DeafFortune)));
        endpoints.push(
            ("ask_for_more_wishes".to_owned(), Handle::Local(LocalRpc::AskForMoreWishes)),
        );
        assert(endpoints_view(endpoints@) =~= fortune_endpoints());
        endpoints
    }

    fn register_endpoints<R: Registry>(&self, register: &mut R) -> (r: Result<(), Error>) {
        install(register, &self.name(), &self.endpoints())
    }
}

} // verus!
