//! The parsed command line, and the plan it maps to: which command kind
//! to send, with which payload, after which validation.
//!
//! Argument parsing itself (flags, help text) belongs to the binary; the
//! library receives the parsed shape and decides everything after it.

use vstd::prelude::*;
use crate::commands::{
    ascii_lower, parse_direction, spec_normalize_url, spec_starts_with, spec_trim, validate_ref,
    validate_script, validate_url,
};
use crate::error::{CliError, ErrorView};
use crate::json::{JsonData, JsonValue, json_data_of};
use crate::output::OutputFormat;
use crate::types::{
    ClickPayload, CommandType, EvalPayload, NavigatePayload, ScrollDirection, ScrollPayload,
    TabNewPayload, TabSwitchPayload, TypePayload, scroll_direction_name, scroll_payload_json,
    tab_new_payload_json,
};

verus! {

/// Arguments of the navigate command.
#[derive(Debug)]
pub struct NavigateArgs {
    pub url: String,
}

/// Arguments of the click command.
#[derive(Debug)]
pub struct ClickArgs {
    pub element_ref: String,
}

/// Arguments of the type command.
#[derive(Debug)]
pub struct TypeArgs {
    pub element_ref: String,
    pub text: String,
}

/// Arguments of the scroll command.
#[derive(Debug)]
pub struct ScrollArgs {
    pub direction: String,
    pub element_ref: Option<String>,
    pub amount: Option<i32>,
}

/// Arguments of the eval command.
#[derive(Debug)]
pub struct EvalArgs {
    pub script: String,
}

/// Arguments of the tab-new command.
#[derive(Debug)]
pub struct TabNewArgs {
    pub url: Option<String>,
}

/// Arguments of the tab-switch command.
#[derive(Debug)]
pub struct TabSwitchArgs {
    pub tab_id: i32,
}

/// Arguments passed through to a directly launched daemon.
#[derive(Debug)]
pub struct DaemonArgs {
    pub args: Vec<String>,
}

/// The tab subcommands.
#[derive(Debug)]
pub enum TabCommands {
    New(TabNewArgs),
    Close,
    Switch(TabSwitchArgs),
    List,
}

/// Every command the CLI accepts.
#[derive(Debug)]
pub enum Commands {
    Navigate(NavigateArgs),
    Snapshot,
    Click(ClickArgs),
    Type(TypeArgs),
    Scroll(ScrollArgs),
    Tab(TabCommands),
    Back,
    Forward,
    Eval(EvalArgs),
    Ping,
    Version,
    Daemon(DaemonArgs),
}

/// The whole parsed command line.
#[derive(Debug)]
pub struct Cli {
    pub session: Option<String>,
    pub profile: Option<String>,
    pub output: OutputFormat,
    pub command: Commands,
}

/// Validates a command's arguments and builds the kind and payload it
/// sends.  `Ok(None)` means the command sends nothing itself (ping,
/// version, and the direct daemon launch are handled by the binary).
pub fn command_plan(command: &Commands) -> (r: Result<Option<(CommandType, JsonValue)>, CliError>)
    ensures
        match command {
            Commands::Navigate(args) => match r {
                Ok(op) => op matches Some((k, p)) && k == CommandType::Navigate && json_data_of(p)
                    == JsonData::Obj(
                    seq![("url"@, JsonData::Str(spec_normalize_url(args.url@)))],
                ) && spec_trim(args.url@).len() > 0,
                Err(e) => e@ matches ErrorView::InvalidArguments(_) && (spec_trim(
                    args.url@,
                ).len() == 0 || spec_starts_with(ascii_lower(args.url@), "chrome://"@)
                    || spec_starts_with(ascii_lower(args.url@), "about:"@)),
            },
            Commands::Snapshot => r matches Ok(op) && op matches Some((k, p)) && k
                == CommandType::Snapshot && json_data_of(p) == JsonData::Obj(
                Seq::<(Seq<char>, JsonData)>::empty(),
            ),
            Commands::Click(args) => match r {
                Ok(op) => op matches Some((k, p)) && k == CommandType::Click && json_data_of(p)
                    == JsonData::Obj(seq![("ref"@, JsonData::Str(args.element_ref@))])
                    && spec_trim(args.element_ref@).len() > 0,
                Err(e) => spec_trim(args.element_ref@).len() == 0 && e@
                    == ErrorView::InvalidArguments("Element reference cannot be empty"@),
            },
            Commands::Type(args) => match r {
                Ok(op) => op matches Some((k, p)) && k == CommandType::Type && json_data_of(p)
                    == JsonData::Obj(
                    seq![
                        ("ref"@, JsonData::Str(args.element_ref@)),
                        ("text"@, JsonData::Str(args.text@)),
                    ],
                ) && spec_trim(args.element_ref@).len() > 0,
                Err(e) => spec_trim(args.element_ref@).len() == 0 && e@
                    == ErrorView::InvalidArguments("Element reference cannot be empty"@),
            },
            Commands::Scroll(args) => match r {
                Ok(op) => op matches Some((k, p)) && k == CommandType::Scroll && (exists|
                    d: ScrollDirection,
                |
                    ascii_lower(args.direction@) == scroll_direction_name(d) && json_data_of(p)
                        == scroll_payload_json(
                        crate::types::ScrollPayload {
                            element_ref: args.element_ref,
                            direction: d,
                            amount: args.amount,
                        },
                    )),
                Err(e) => e@ matches ErrorView::InvalidArguments(_) && ascii_lower(
                    args.direction@,
                ) != "up"@ && ascii_lower(args.direction@) != "down"@ && ascii_lower(
                    args.direction@,
                ) != "left"@ && ascii_lower(args.direction@) != "right"@,
            },
            Commands::Tab(tab) => match tab {
                TabCommands::New(args) => r matches Ok(op) && op matches Some((k, p)) && k
                    == CommandType::TabNew && json_data_of(p) == JsonData::Obj(
                    match args.url {
                        Some(u) => seq![("url"@, JsonData::Str(spec_normalize_url(u@)))],
                        None => Seq::empty(),
                    },
                ),
                TabCommands::Close => r matches Ok(op) && op matches Some((k, p)) && k
                    == CommandType::TabClose && json_data_of(p) == JsonData::Obj(
                    Seq::<(Seq<char>, JsonData)>::empty(),
                ),
                TabCommands::Switch(args) => r matches Ok(op) && op matches Some((k, p)) && k
                    == CommandType::TabSwitch && json_data_of(p) == JsonData::Obj(
                    seq![("tab_id"@, JsonData::Int(args.tab_id as int))],
                ),
                TabCommands::List => r matches Ok(op) && op matches Some((k, p)) && k
                    == CommandType::TabList && json_data_of(p) == JsonData::Obj(
                    Seq::<(Seq<char>, JsonData)>::empty(),
                ),
            },
            Commands::Back => r matches Ok(op) && op matches Some((k, p)) && k
                == CommandType::Back && json_data_of(p) == JsonData::Obj(
                Seq::<(Seq<char>, JsonData)>::empty(),
            ),
            Commands::Forward => r matches Ok(op) && op matches Some((k, p)) && k
                == CommandType::Forward && json_data_of(p) == JsonData::Obj(
                Seq::<(Seq<char>, JsonData)>::empty(),
            ),
            Commands::Eval(args) => match r {
                Ok(op) => op matches Some((k, p)) && k == CommandType::Eval && json_data_of(p)
                    == JsonData::Obj(seq![("script"@, JsonData::Str(args.script@))]) && spec_trim(
                    args.script@,
                ).len() > 0,
                Err(e) => spec_trim(args.script@).len() == 0 && e@ == ErrorView::InvalidArguments(
                    "Script cannot be empty"@,
                ),
            },
            Commands::Ping => r matches Ok(op) && op is None,
            Commands::Version => r matches Ok(op) && op is None,
            Commands::Daemon(_) => r matches Ok(op) && op is None,
        },
{
    match command {
        Commands::Navigate(args) => {
            match validate_url(args.url.as_str()) {
                Ok(()) => {
                    let payload = NavigatePayload {
                        url: crate::commands::normalize_url(args.url.as_str()),
                    };
                    Ok(Some((CommandType::Navigate, payload.to_json())))
                }
                Err(e) => Err(e),
            }
        }
        Commands::Snapshot => Ok(Some((CommandType::Snapshot, JsonValue::Obj(Vec::new())))),
        Commands::Click(args) => {
            match validate_ref(args.element_ref.as_str()) {
                Ok(()) => {
                    let payload = ClickPayload { element_ref: args.element_ref.clone() };
                    Ok(Some((CommandType::Click, payload.to_json())))
                }
                Err(e) => Err(e),
            }
        }
        Commands::Type(args) => {
            match validate_ref(args.element_ref.as_str()) {
                Ok(()) => {
                    let payload = TypePayload {
                        element_ref: args.element_ref.clone(),
                        text: args.text.clone(),
                    };
                    Ok(Some((CommandType::Type, payload.to_json())))
                }
                Err(e) => Err(e),
            }
        }
        Commands::Scroll(args) => {
            match parse_direction(args.direction.as_str()) {
                Ok(direction) => {
                    let payload = ScrollPayload {
                        element_ref: match &args.element_ref {
                            Some(s) => Some(s.clone()),
                            None => None,
                        },
                        direction,
                        amount: args.amount,
                    };
                    let pj = payload.to_json();
                    proof {
                        let pv = crate::types::ScrollPayload {
                            element_ref: args.element_ref,
                            direction,
                            amount: args.amount,
                        };
                        assert(json_data_of(pj) == scroll_payload_json(pv));
                    }
                    Ok(Some((CommandType::Scroll, pj)))
                }
                Err(e) => Err(e),
            }
        }
        Commands::Tab(tab) => match tab {
            TabCommands::New(args) => {
                let normalized = match &args.url {
                    Some(u) => Some(crate::commands::normalize_url(u.as_str())),
                    None => None,
                };
                let payload = TabNewPayload { url: normalized };
                let pj = payload.to_json();
                proof {
                    assert(json_data_of(pj) == tab_new_payload_json(payload));
                }
                Ok(Some((CommandType::TabNew, pj)))
            }
            TabCommands::Close => Ok(Some((CommandType::TabClose, JsonValue::Obj(Vec::new())))),
            TabCommands::Switch(args) => {
                let payload = TabSwitchPayload { tab_id: args.tab_id };
                Ok(Some((CommandType::TabSwitch, payload.to_json())))
            }
            TabCommands::List => Ok(Some((CommandType::TabList, JsonValue::Obj(Vec::new())))),
        },
        Commands::Back => Ok(Some((CommandType::Back, JsonValue::Obj(Vec::new())))),
        Commands::Forward => Ok(Some((CommandType::Forward, JsonValue::Obj(Vec::new())))),
        Commands::Eval(args) => {
            match validate_script(args.script.as_str()) {
                Ok(()) => {
                    let payload = EvalPayload { script: args.script.clone() };
                    Ok(Some((CommandType::Eval, payload.to_json())))
                }
                Err(e) => Err(e),
            }
        }
        Commands::Ping => Ok(None),
        Commands::Version => Ok(None),
        Commands::Daemon(_) => Ok(None),
    }
}

} // verus!
