//! Settings that the service logic reads, and the runtime environment that
//! selects them.

use crate::domain::{address_accepted, email_refusal, SubscriberEmail};
use vstd::prelude::*;

verus! {

/// How the service reaches its mail relay and who it sends as.
#[derive(Debug)]
pub struct EmailClientSetting {
    pub smtp_server: String,
    pub port: u16,
    pub name: String,
    pub username: String,
    pub password: String,
}

impl EmailClientSetting {
    /// The sender's address: the user name of the relay account, which has
    /// to be an e-mail address.
    pub fn sender(&self) -> (outcome: Result<SubscriberEmail, String>)
        ensures
            outcome is Ok <==> address_accepted(self.username@),
            outcome is Ok ==> outcome->Ok_0@ == self.username@,
            outcome is Err ==> outcome->Err_0@ == email_refusal(self.username@),
    {
        SubscriberEmail::parse(self.username.clone())
    }
}

/// Where the service runs.
#[derive(Clone, Copy, Debug, PartialEq, Eq, Structural)]
pub enum Environment {
    Local,
    Production,
}

/// The lower-case form of a text, as `str::to_lowercase` gives it.
pub uninterp spec fn lowercased(text: Seq<char>) -> Seq<char>;

/// Calls `str::to_lowercase`. The result depends on the text alone.
#[verifier::external_body]
fn to_lowercase(text: &str) -> (lower: String)
    ensures
        lower@ == lowercased(text@),
{
    text.to_lowercase()
}

/// The text that tells that `name` names no environment.
pub open spec fn environment_refusal(name: Seq<char>) -> Seq<char> {
    name + " is not a supported environment. Use either `local` or `production`."@
}

/// The environment that a lower-case name stands for.
pub open spec fn environment_named(name: Seq<char>) -> Option<Environment> {
    if name == "local"@ {
        Some(Environment::Local)
    } else if name == "production"@ {
        Some(Environment::Production)
    } else {
        None
    }
}

impl Environment {
    /// The name of the environment, as a sequence of characters.
    pub open spec fn name(&self) -> Seq<char> {
        match *self {
            Environment::Local => "local"@,
            Environment::Production => "production"@,
        }
    }

    /// The name of the environment.
    pub fn as_str(&self) -> (name: &'static str)
        ensures
            name@ == self.name(),
            environment_named(name@) == Some(*self),
    {
        proof {
            reveal_strlit("local");
            reveal_strlit("production");
            assert("local"@.len() != "production"@.len());
        }
        match self {
            Environment::Local => "local",
            Environment::Production => "production",
        }
    }

    /// The name of the settings file of the environment: its name and the
    /// ending `.yml`.
    pub fn file_name(&self) -> (name: String)
        ensures
            name@ == self.name() + ".yml"@,
    {
        String::from_str(self.as_str()).concat(".yml")
    }

    /// Reads an environment from its name, whatever the case of its
    /// letters. The refusal quotes the name in lower case.
    pub fn try_from(name: String) -> (outcome: Result<Environment, String>)
        ensures
            outcome is Ok <==> environment_named(lowercased(name@)) is Some,
            outcome is Ok ==> Some(outcome->Ok_0) == environment_named(lowercased(name@)),
            outcome is Err ==> outcome->Err_0@ == environment_refusal(lowercased(name@)),
    {
        Self::from_lowercased(to_lowercase(name.as_str()))
    }

    /// Reads an environment from a name in lower case: `local` or
    /// `production`, nothing else.
    pub fn from_lowercased(lower: String) -> (outcome: Result<Environment, String>)
        ensures
            outcome is Ok <==> environment_named(lower@) is Some,
            outcome is Ok ==> Some(outcome->Ok_0) == environment_named(lower@),
            outcome is Err ==> outcome->Err_0@ == environment_refusal(lower@),
    {
        if lower == String::from_str("local") {
            Ok(Environment::Local)
        } else if lower == String::from_str("production") {
            Ok(Environment::Production)
        } else {
            Err(lower.concat(" is not a supported environment. Use either `local` or `production`."))
        }
    }

    /// The environment that a setting selects: `local` when nothing is set.
    pub fn from_setting(setting: Option<String>) -> (outcome: Result<Environment, String>)
        ensures
            setting is None ==> outcome == Ok::<Environment, String>(Environment::Local),
            setting is Some ==> (outcome is Ok <==> environment_named(lowercased(setting->0@))
                is Some),
            setting is Some && outcome is Ok ==> Some(outcome->Ok_0) == environment_named(
                lowercased(setting->0@),
            ),
            setting is Some && outcome is Err ==> outcome->Err_0@ == environment_refusal(
                lowercased(setting->0@),
            ),
    {
        match setting {
            None => Ok(Environment::Local),
            Some(name) => Self::try_from(name),
        }
    }
}

} // verus!
