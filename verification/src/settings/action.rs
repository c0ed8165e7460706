//! What a call of the `config` command asks for, and which files it works on.
use vstd::prelude::*;
use vstd::string::*;

use crate::error::{outcome, refuse, Refusal};
use crate::paths::{join_path, joined_path, parent, parent_of};
use crate::settings::values::{parse_bool, truth};
use crate::settings::write::ConfigArgs;
use crate::text::{str_equal, views};

verus! {

/// What is to be done.
#[derive(Debug, Clone, Copy, PartialEq, Eq, Structural)]
pub enum Action {
    /// Open the configuration, or the credentials, in an editor.
    Edit { auth: bool },
    /// List every setting.
    List,
    /// Nothing.
    Nothing,
    /// Show one setting.
    Show,
    /// Remove one setting.
    Unset,
    /// Set one setting.
    Assign,
}

/// What a call asks for: the first of these that applies.
pub open spec fn action_of(args: ConfigArgs) -> Result<Action, Seq<char>> {
    if args.global && args.file is Some {
        Err("--file and --global can not be combined"@)
    } else if args.editor {
        Ok(Action::Edit { auth: args.auth })
    } else if args.list {
        Ok(Action::List)
    } else if args.setting_key is None {
        Ok(Action::Nothing)
    } else if args.unset {
        if args.setting_value@.len() > 0 {
            Err("You can not combine a setting value with --unset"@)
        } else {
            Ok(Action::Unset)
        }
    } else if args.setting_value@.len() == 0 {
        Ok(Action::Show)
    } else {
        Ok(Action::Assign)
    }
}

/// What a call asks for.
pub fn action(args: &ConfigArgs) -> (r: Result<Action, Refusal>)
    ensures
        outcome(r) == action_of(*args),
{
    if args.global && args.file.is_some() {
        return refuse("--file and --global can not be combined");
    }
    if args.editor {
        return Ok(Action::Edit { auth: args.auth });
    }
    if args.list {
        return Ok(Action::List);
    }
    if args.setting_key.is_none() {
        return Ok(Action::Nothing);
    }
    if args.unset {
        if args.setting_value.len() > 0 {
            return refuse("You can not combine a setting value with --unset");
        }
        return Ok(Action::Unset);
    }
    if args.setting_value.len() == 0 {
        Ok(Action::Show)
    } else {
        Ok(Action::Assign)
    }
}

/// A change of TLS protection that the user is told about: whether it is now on.
pub open spec fn tls_switch(
    key: Seq<char>,
    unset: bool,
    values: Seq<Seq<char>>,
    disabled: bool,
) -> Result<Option<bool>, Seq<char>> {
    if key != "disable-tls"@ {
        Ok(None)
    } else if unset {
        Ok(
            if disabled {
                Some(true)
            } else {
                None
            },
        )
    } else if values.len() == 0 {
        Ok(None)
    } else {
        match truth(values[0]) {
            Err(m) => Err(m),
            Ok(off) => Ok(
                if off && !disabled {
                    Some(false)
                } else if !off && disabled {
                    Some(true)
                } else {
                    None
                },
            ),
        }
    }
}

/// A change of TLS protection that the user is told about, given whether TLS is
/// disabled so far.
pub fn tls_change(key: &str, unset: bool, values: &[String], disabled: bool) -> (r: Result<
    Option<bool>,
    Refusal,
>)
    ensures
        outcome(r) == tls_switch(key@, unset, views(values@), disabled),
{
    if !str_equal(key, "disable-tls") {
        return Ok(None);
    }
    if unset {
        return Ok(
            if disabled {
                Some(true)
            } else {
                None
            },
        );
    }
    if values.len() == 0 {
        return Ok(None);
    }
    assert(views(values@)[0] == values@[0]@);
    match parse_bool(values[0].as_str()) {
        Err(e) => Err(e),
        Ok(off) => Ok(
            if off && !disabled {
                Some(false)
            } else if !off && disabled {
                Some(true)
            } else {
                None
            },
        ),
    }
}

/// The files that a call works on.
#[derive(Debug)]
pub struct ConfigFiles {
    pub config_path: String,
    pub auth_path: String,
    pub source_name: String,
    pub global_home: String,
}

/// The file that is read and written.
pub open spec fn config_path_of(args: ConfigArgs, working_dir: Seq<char>, home: Seq<char>) -> Seq<
    char,
> {
    if args.global {
        joined_path(home, "config.json"@)
    } else {
        joined_path(
            working_dir,
            match args.file {
                Some(f) => f@,
                None => "composer.json"@,
            },
        )
    }
}

/// The file with the credentials: beside the configuration.
pub open spec fn auth_path_of(args: ConfigArgs, working_dir: Seq<char>, home: Seq<char>) -> Seq<
    char,
> {
    if args.global {
        joined_path(home, "auth.json"@)
    } else {
        match parent_of(config_path_of(args, working_dir, home)) {
            Some(p) => joined_path(p, "auth.json"@),
            None => joined_path(working_dir, "auth.json"@),
        }
    }
}

/// The files that a call works on, given the home directory of the configuration.
pub fn resolve_files(args: &ConfigArgs, working_dir: &str, home: &str) -> (r: ConfigFiles)
    ensures
        r.config_path@ == config_path_of(*args, working_dir@, home@),
        r.auth_path@ == auth_path_of(*args, working_dir@, home@),
        r.source_name@ == if !args.global && args.file is None {
            "./composer.json"@
        } else {
            r.config_path@
        },
        r.global_home@ == home@,
{
    if args.global {
        let config_path = join_path(home, "config.json");
        let source_name = config_path.clone();
        return ConfigFiles {
            config_path,
            auth_path: join_path(home, "auth.json"),
            source_name,
            global_home: home.to_owned(),
        };
    }
    let config_path = match &args.file {
        Some(f) => join_path(working_dir, f.as_str()),
        None => join_path(working_dir, "composer.json"),
    };
    let source_name = if args.file.is_none() {
        "./composer.json".to_owned()
    } else {
        config_path.clone()
    };
    let auth_path = match parent(config_path.as_str()) {
        Some(p) => join_path(p.as_str(), "auth.json"),
        None => join_path(working_dir, "auth.json"),
    };
    ConfigFiles { config_path, auth_path, source_name, global_home: home.to_owned() }
}

} // verus!
