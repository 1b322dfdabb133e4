//! The commands of the interactive front end, and what each of them asks of
//! its arguments.

use vstd::prelude::*;
use vstd::std_specs::iter::IteratorSpec;
use vstd::string::StringExecFns;

use crate::cli::parser::{join_words, Function};
use crate::cli::type_parsing::{
    decimal_digits, decimal_to_number, decimal_value, hex_bytes, hex_error, hex_string_to_bytes,
    is_decimal_number, is_hex_string,
};
use crate::API_KEY_LENGTH;

verus! {

/// What the user asks for.
#[derive(Debug)]
pub enum Command {
    /// `q`: leave.
    Quit,
    /// `connect <address> <api_key>`: open a connection to `addr`.
    Connect { addr: String, api_key: [u8; 32] },
    /// `send <proto path> <message name> <message values>`, or `id_send` with
    /// the schema id in front of the values: send one message durably.
    Send { proto_id: u64, proto_path: String, message_name: String, message_values: String },
    /// `start [address]`: accept connections, at `listen` if it is given.
    Start { listen: Option<String> },
    /// `receive [<proto path> <message name>]`: read one message, and decode
    /// its body if a schema is named.
    Receive { proto: Option<(String, String)> },
}

/// The commands that take arguments they cannot do without.
#[derive(Debug, Clone, Copy, PartialEq, Eq, Structural)]
pub enum CommandName {
    Connect,
    Send,
    IdSend,
    Receive,
}

/// Why a line is not a command that can be carried out.
#[derive(Debug)]
pub enum CommandError {
    /// The command lacks arguments.
    Usage(CommandName),
    /// The API key is not written in hexadecimal; the field says why.
    ApiKey(String),
    /// The API key has not 32 bytes.
    ApiKeyLength,
    /// The schema id, which is the field, is no number.
    ProtoId(String),
    /// There is no command of this name.
    Unknown(String),
}

/// A command as a mathematical value.
pub enum CommandView {
    Quit,
    Connect { addr: Seq<char>, api_key: Seq<u8> },
    Send {
        proto_id: u64,
        proto_path: Seq<char>,
        message_name: Seq<char>,
        message_values: Seq<char>,
    },
    Start { listen: Option<Seq<char>> },
    Receive { proto: Option<(Seq<char>, Seq<char>)> },
}

/// A command error as a mathematical value.
pub enum CommandErrorView {
    Usage(CommandName),
    ApiKey(Seq<char>),
    ApiKeyLength,
    ProtoId(Seq<char>),
    Unknown(Seq<char>),
}

impl View for Command {
    type V = CommandView;

    open spec fn view(&self) -> CommandView {
        match *self {
            Command::Quit => CommandView::Quit,
            Command::Connect { addr, api_key } => CommandView::Connect {
                addr: addr@,
                api_key: api_key@,
            },
            Command::Send { proto_id, proto_path, message_name, message_values } => {
                CommandView::Send {
                    proto_id,
                    proto_path: proto_path@,
                    message_name: message_name@,
                    message_values: message_values@,
                }
            },
            Command::Start { listen } => CommandView::Start {
                listen: match listen {
                    Some(address) => Some(address@),
                    None => None,
                },
            },
            Command::Receive { proto } => CommandView::Receive {
                proto: match proto {
                    Some((proto_path, message_name)) => Some((proto_path@, message_name@)),
                    None => None,
                },
            },
        }
    }
}

impl View for CommandError {
    type V = CommandErrorView;

    open spec fn view(&self) -> CommandErrorView {
        match *self {
            CommandError::Usage(name) => CommandErrorView::Usage(name),
            CommandError::ApiKey(reason) => CommandErrorView::ApiKey(reason@),
            CommandError::ApiKeyLength => CommandErrorView::ApiKeyLength,
            CommandError::ProtoId(text) => CommandErrorView::ProtoId(text@),
            CommandError::Unknown(name) => CommandErrorView::Unknown(name@),
        }
    }
}

/// What `connect` makes of its arguments: an address, and an API key of 32
/// bytes written in hexadecimal.
pub open spec fn connect_command(args: Seq<Seq<char>>) -> Result<CommandView, CommandErrorView> {
    if args.len() < 2 {
        Err(CommandErrorView::Usage(CommandName::Connect))
    } else if !is_hex_string(args[1]) {
        Err(CommandErrorView::ApiKey(hex_error(args[1])))
    } else if hex_bytes(args[1]).len() != API_KEY_LENGTH {
        Err(CommandErrorView::ApiKeyLength)
    } else {
        Ok(CommandView::Connect { addr: args[0], api_key: hex_bytes(args[1]) })
    }
}

/// What `send` makes of its arguments: the schema's file, the message's
/// name, and the values, which are all the words that follow. The schema id
/// is 0.
pub open spec fn send_command(args: Seq<Seq<char>>) -> Result<CommandView, CommandErrorView> {
    if args.len() < 2 {
        Err(CommandErrorView::Usage(CommandName::Send))
    } else {
        Ok(
            CommandView::Send {
                proto_id: 0,
                proto_path: args[0],
                message_name: args[1],
                message_values: join_words(args.skip(2)),
            },
        )
    }
}

/// What `id_send` makes of its arguments: as `send`, with the schema id, in
/// decimal, before the values.
pub open spec fn id_send_command(args: Seq<Seq<char>>) -> Result<CommandView, CommandErrorView> {
    if args.len() < 3 {
        Err(CommandErrorView::Usage(CommandName::IdSend))
    } else if !is_decimal_number(args[2]) {
        Err(CommandErrorView::ProtoId(args[2]))
    } else {
        Ok(
            CommandView::Send {
                proto_id: decimal_value(decimal_digits(args[2])) as u64,
                proto_path: args[0],
                message_name: args[1],
                message_values: join_words(args.skip(3)),
            },
        )
    }
}

/// What `receive` makes of its arguments: none, or the schema's file and the
/// message's name.
pub open spec fn receive_command(args: Seq<Seq<char>>) -> Result<CommandView, CommandErrorView> {
    if args.len() == 0 {
        Ok(CommandView::Receive { proto: None })
    } else if args.len() == 1 {
        Err(CommandErrorView::Usage(CommandName::Receive))
    } else {
        Ok(CommandView::Receive { proto: Some((args[0], args[1])) })
    }
}

/// What `start` makes of its arguments: the address, if there is one.
pub open spec fn start_command(args: Seq<Seq<char>>) -> Result<CommandView, CommandErrorView> {
    Ok(
        CommandView::Start {
            listen: if args.len() > 0 {
                Some(args[0])
            } else {
                None
            },
        },
    )
}

/// The command that a name and its arguments stand for.
pub open spec fn command_of(name: Seq<char>, args: Seq<Seq<char>>) -> Result<
    CommandView,
    CommandErrorView,
> {
    if name == "q"@ {
        Ok(CommandView::Quit)
    } else if name == "connect"@ {
        connect_command(args)
    } else if name == "send"@ {
        send_command(args)
    } else if name == "id_send"@ {
        id_send_command(args)
    } else if name == "start"@ {
        start_command(args)
    } else if name == "receive"@ {
        receive_command(args)
    } else {
        Err(CommandErrorView::Unknown(name))
    }
}

/// Whether the two texts are the same.
pub fn same_text(left: &str, right: &str) -> (same: bool)
    ensures
        same == (left@ == right@),
{
    let mut left_chars = left.chars();
    let mut right_chars = right.chars();
    let ghost mut at: int = 0;
    loop
        invariant
            0 <= at <= left@.len(),
            at <= right@.len(),
            left_chars.remaining() == left@.skip(at),
            right_chars.remaining() == right@.skip(at),
            left_chars.decrease() is Some,
            right_chars.decrease() is Some,
            forall|i: int| 0 <= i < at ==> left@[i] == right@[i],
        decreases left_chars.decrease()->0,
    {
        let left_next = left_chars.next();
        let right_next = right_chars.next();
        match (left_next, right_next) {
            (None, None) => {
                assert(left@ =~= right@);
                return true;
            },
            (Some(left_char), Some(right_char)) => {
                if left_char != right_char {
                    return false;
                }
                proof {
                    at = at + 1;
                }
            },
            _ => {
                return false;
            },
        }
    }
}

/// The words from the place `from` on, with one space between each two of
/// them.
pub fn join_from(words: &Vec<String>, from: usize) -> (text: String)
    requires
        from <= words@.len(),
    ensures
        text@ == join_words(words.deep_view().skip(from as int)),
{
    let ghost all = words.deep_view().skip(from as int);
    let mut text = String::new();
    let mut at: usize = from;
    while at < words.len()
        invariant
            from <= at <= words@.len(),
            all == words.deep_view().skip(from as int),
            text@ == join_words(all.take(at - from)),
        decreases words@.len() - at,
    {
        proof {
            assert(all.take(at - from + 1).drop_last() =~= all.take(at - from));
        }
        if at > from {
            text.push(' ');
        }
        text.append(words[at].as_str());
        at = at + 1;
    }
    proof {
        assert(all.take(at - from) =~= all);
    }
    text
}

/// The API key that the text stands for.
fn api_key_from_hex(text: &str) -> (result: Result<[u8; 32], CommandError>)
    ensures
        result matches Ok(api_key) ==> is_hex_string(text@) && api_key@ == hex_bytes(text@),
        result matches Err(error) ==> (if !is_hex_string(text@) {
            error@ == CommandErrorView::ApiKey(hex_error(text@))
        } else {
            hex_bytes(text@).len() != API_KEY_LENGTH && error@ == CommandErrorView::ApiKeyLength
        }),
{
    let bytes = match hex_string_to_bytes(text) {
        Ok(bytes) => bytes,
        Err(reason) => {
            return Err(CommandError::ApiKey(reason));
        },
    };
    if bytes.len() != API_KEY_LENGTH {
        return Err(CommandError::ApiKeyLength);
    }
    let mut api_key: [u8; 32] = [0u8; 32];
    let mut at: usize = 0;
    while at < API_KEY_LENGTH
        invariant
            at <= API_KEY_LENGTH,
            bytes@.len() == API_KEY_LENGTH,
            forall|i: int| 0 <= i < at ==> api_key@[i] == bytes@[i],
        decreases API_KEY_LENGTH - at,
    {
        api_key[at] = bytes[at];
        at = at + 1;
    }
    Ok(api_key)
}

/// Says what the user asks for with the words of a line: which command it
/// is, by its name, and whether its arguments will do.
pub fn parse_command(function: &Function) -> (result: Result<Command, CommandError>)
    ensures
        result matches Ok(command) ==> command_of(function.name@, function.args.deep_view()) == Ok::<
            CommandView,
            CommandErrorView,
        >(command@),
        result matches Err(error) ==> command_of(function.name@, function.args.deep_view())
            == Err::<CommandView, CommandErrorView>(error@),
{
    let name = function.name.as_str();
    let args = &function.args;
    if same_text(name, "q") {
        Ok(Command::Quit)
    } else if same_text(name, "connect") {
        if args.len() < 2 {
            return Err(CommandError::Usage(CommandName::Connect));
        }
        match api_key_from_hex(args[1].as_str()) {
            Ok(api_key) => Ok(Command::Connect { addr: args[0].clone(), api_key }),
            Err(error) => Err(error),
        }
    } else if same_text(name, "send") {
        if args.len() < 2 {
            return Err(CommandError::Usage(CommandName::Send));
        }
        Ok(
            Command::Send {
                proto_id: 0,
                proto_path: args[0].clone(),
                message_name: args[1].clone(),
                message_values: join_from(args, 2),
            },
        )
    } else if same_text(name, "id_send") {
        if args.len() < 3 {
            return Err(CommandError::Usage(CommandName::IdSend));
        }
        let proto_id = match decimal_to_number(args[2].as_str()) {
            Some(proto_id) => proto_id,
            None => {
                return Err(CommandError::ProtoId(args[2].clone()));
            },
        };
        Ok(
            Command::Send {
                proto_id,
                proto_path: args[0].clone(),
                message_name: args[1].clone(),
                message_values: join_from(args, 3),
            },
        )
    } else if same_text(name, "start") {
        if args.len() > 0 {
            Ok(Command::Start { listen: Some(args[0].clone()) })
        } else {
            Ok(Command::Start { listen: None })
        }
    } else if same_text(name, "receive") {
        if args.len() == 0 {
            Ok(Command::Receive { proto: None })
        } else if args.len() == 1 {
            Err(CommandError::Usage(CommandName::Receive))
        } else {
            Ok(Command::Receive { proto: Some((args[0].clone(), args[1].clone())) })
        }
    } else {
        Err(CommandError::Unknown(function.name.clone()))
    }
}

} // verus!
