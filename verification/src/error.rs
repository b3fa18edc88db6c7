use vstd::prelude::*;

use crate::text;

verus! {

/// What can go wrong in the launcher.
#[derive(Debug, Clone)]
pub enum Error {
    Message(String),
    Http(String),
    Json(String),
    Io { path: String, source: String },
    JavaMissing,
    VersionNotFound(String),
    Checksum { path: String },
    NoAccount,
    Auth(String),
}

impl Error {
    /// A plain error message.
    pub fn msg(text: String) -> (res: Error)
        ensures
            res == Error::Message(text),
    {
        Error::Message(text)
    }

    /// The text shown to the user for this error.
    pub open spec fn spec_message(self) -> Seq<char> {
        match self {
            Error::Message(t) => t@,
            Error::Http(t) => "сеть: "@ + t@,
            Error::Json(t) => "не удалось разобрать ответ API: "@ + t@,
            Error::Io { path, source } => "ввод/вывод "@ + path@ + ": "@ + source@,
            Error::JavaMissing => "java не найдена — укажите путь в настройках"@,
            Error::VersionNotFound(v) => "версия "@ + v@ + " не найдена в манифесте Mojang"@,
            Error::Checksum { path } => "хеш не совпал: "@ + path@,
            Error::NoAccount => "нет активного аккаунта"@,
            Error::Auth(t) => "вход Microsoft: "@ + t@,
        }
    }

    /// The text shown to the user for this error.
    pub fn message(&self) -> (res: String)
        ensures
            res@ == self.spec_message(),
    {
        match self {
            Error::Message(t) => text::owned(t.as_str()),
            Error::Http(t) => text::concat2("сеть: ", t.as_str()),
            Error::Json(t) => text::concat2("не удалось разобрать ответ API: ", t.as_str()),
            Error::Io { path, source } => {
                let a = text::concat3("ввод/вывод ", path.as_str(), ": ");
                text::concat2(a.as_str(), source.as_str())
            },
            Error::JavaMissing => text::owned("java не найдена — укажите путь в настройках"),
            Error::VersionNotFound(v) => text::concat3(
                "версия ",
                v.as_str(),
                " не найдена в манифесте Mojang",
            ),
            Error::Checksum { path } => text::concat2("хеш не совпал: ", path.as_str()),
            Error::NoAccount => text::owned("нет активного аккаунта"),
            Error::Auth(t) => text::concat2("вход Microsoft: ", t.as_str()),
        }
    }
}

/// An input/output error at `path`.
pub fn io_err(path: String, source: String) -> (res: Error)
    ensures
        res == (Error::Io { path, source }),
{
    Error::Io { path, source }
}

} // verus!
