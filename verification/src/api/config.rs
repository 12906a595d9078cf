//! Settings of the service, as they are taken from its environment.

use vstd::prelude::*;
use vstd::string::StringExecFns;

use crate::base::text::same_text;

verus! {

/// The secret that signs tokens where none is set.
pub const DEFAULT_SECRET: &'static str = "secret";

/// Where the service runs.
#[derive(Clone, Copy, Debug, PartialEq, Eq, Structural)]
pub enum Env {
    Dev,
    Prod,
    Test,
}

impl Env {
    /// The name under which the mode is written down.
    pub open spec fn text(self) -> Seq<char> {
        match self {
            Env::Dev => "dev"@,
            Env::Prod => "prod"@,
            Env::Test => "test"@,
        }
    }

    /// The mode that `text` names, if it names one.
    pub open spec fn named(text: Seq<char>) -> Option<Env> {
        if text == "dev"@ {
            Some(Env::Dev)
        } else if text == "prod"@ {
            Some(Env::Prod)
        } else if text == "test"@ {
            Some(Env::Test)
        } else {
            None
        }
    }

    /// The mode that a setting selects: the one it names, and `Dev` where it
    /// is absent or names none.
    pub open spec fn selected(setting: Option<Seq<char>>) -> Env {
        match setting {
            Some(text) => match Env::named(text) {
                Some(env) => env,
                None => Env::Dev,
            },
            None => Env::Dev,
        }
    }

    /// Reads a mode from its name; any other text is refused.
    pub fn from_str(input: &str) -> (r: Result<Env, ()>)
        ensures
            r.ok() == Env::named(input@),
    {
        if same_text(input, "dev") {
            Ok(Env::Dev)
        } else if same_text(input, "prod") {
            Ok(Env::Prod)
        } else if same_text(input, "test") {
            Ok(Env::Test)
        } else {
            Err(())
        }
    }

    /// Writes the mode as its name.
    pub fn to_string(&self) -> (s: String)
        ensures
            s@ == self.text(),
    {
        match self {
            Env::Dev => String::from_str("dev"),
            Env::Prod => String::from_str("prod"),
            Env::Test => String::from_str("test"),
        }
    }
}

impl std::str::FromStr for Env {
    type Err = ();

    /// Reads a mode from its name, as [`Env::from_str`] does.
    fn from_str(input: &str) -> (r: Result<Env, ()>)
        ensures
            r.ok() == Env::named(input@),
    {
        Env::from_str(input)
    }
}

/// Where the accounts are kept.
#[derive(Clone, Copy, Debug, PartialEq, Eq, Structural)]
pub enum Backend {
    /// In the memory of the process, and gone with it.
    InMemory,
    /// In a store outside the process.
    Persistent,
}

impl Env {
    /// The kind of store that a mode runs against: tests keep their accounts
    /// in memory, the other modes in a store outside the process.
    pub fn backend(&self) -> (backend: Backend)
        ensures
            backend == if *self == Env::Test {
                Backend::InMemory
            } else {
                Backend::Persistent
            },
    {
        match self {
            Env::Test => Backend::InMemory,
            Env::Dev => Backend::Persistent,
            Env::Prod => Backend::Persistent,
        }
    }
}

/// The settings of a running service. They are read once and never change.
#[derive(Debug)]
pub struct Config {
    pub secret: String,
    pub env: Env,
    pub user_pool_id_cliente: String,
    pub user_pool_id_usuario: String,
}

/// A setting without which the service cannot start.
#[derive(Clone, Copy, Debug, PartialEq, Eq, Structural)]
pub enum MissingSetting {
    /// The directory that keeps the customers.
    UserPoolIdCliente,
    /// The directory that keeps the staff.
    UserPoolIdUsuario,
}

/// The text of a setting, if it is set.
pub open spec fn setting_text(setting: Option<String>) -> Option<Seq<char>> {
    match setting {
        Some(text) => Some(text@),
        None => None,
    }
}

impl Config {
    /// Puts the settings together from the values of the four variables of
    /// the environment, each absent where the variable is not set. The secret
    /// and the mode have defaults; the two directories do not, and the one
    /// for customers is looked at first.
    pub fn build(
        secret: Option<String>,
        env: Option<String>,
        user_pool_id_cliente: Option<String>,
        user_pool_id_usuario: Option<String>,
    ) -> (r: Result<Config, MissingSetting>)
        ensures
            match r {
                Ok(config) => {
                    &&& config.secret@ == match secret {
                        Some(text) => text@,
                        None => DEFAULT_SECRET@,
                    }
                    &&& config.env == Env::selected(setting_text(env))
                    &&& setting_text(user_pool_id_cliente) == Some(config.user_pool_id_cliente@)
                    &&& setting_text(user_pool_id_usuario) == Some(config.user_pool_id_usuario@)
                },
                Err(missing) => if user_pool_id_cliente is None {
                    missing == MissingSetting::UserPoolIdCliente
                } else {
                    user_pool_id_usuario is None && missing == MissingSetting::UserPoolIdUsuario
                },
            },
    {
        let secret = match secret {
            Some(text) => text,
            None => String::from_str(DEFAULT_SECRET),
        };
        let env = match env {
            Some(text) => match Env::from_str(text.as_str()) {
                Ok(env) => env,
                Err(_) => Env::Dev,
            },
            None => Env::Dev,
        };
        let user_pool_id_cliente = match user_pool_id_cliente {
            Some(val) => val,
            None => {
                return Err(MissingSetting::UserPoolIdCliente);
            },
        };
        let user_pool_id_usuario = match user_pool_id_usuario {
            Some(val) => val,
            None => {
                return Err(MissingSetting::UserPoolIdUsuario);
            },
        };
        Ok(Config { secret, env, user_pool_id_cliente, user_pool_id_usuario })
    }
}

} // verus!
