//! Command-line configuration: which task to run.

use vstd::prelude::*;

verus! {

/// The tasks the program runs.
#[derive(Clone, Copy, Debug, PartialEq, Eq, Structural)]
pub enum Command {
    /// Download fresh historical candles.
    ResetData,
    /// Replay stored candles through the arbitrage detector.
    Backtest,
    /// Watch live candles for arbitrage.
    Talaria,
    /// Try out the KuCoin stream.
    Dev,
}

/// The task an argument names, if any.
pub open spec fn command_of(arg: Seq<char>) -> Option<Command> {
    if arg == "reset-data"@ {
        Some(Command::ResetData)
    } else if arg == "backtest"@ {
        Some(Command::Backtest)
    } else if arg == "talaria"@ {
        Some(Command::Talaria)
    } else if arg == "__dev__"@ {
        Some(Command::Dev)
    } else {
        None
    }
}

/// The execution argument: the first argument after the program name.
pub fn parse_config(args: &[String]) -> (r: Result<&str, &'static str>)
    ensures
        args@.len() < 2 ==> (r matches Err(e) && e@
            == "Error in main: Please provide an execution argument."@),
        args@.len() >= 2 ==> (r matches Ok(s) && s@ == args@[1]@),
{
    if args.len() < 2 {
        Err("Error in main: Please provide an execution argument.")
    } else {
        Ok(args[1].as_str())
    }
}

/// The task an execution argument names; `None` for any other argument.
pub fn parse_command(arg: &str) -> (r: Option<Command>)
    ensures
        r == command_of(arg@),
{
    let arg = arg.to_owned();
    if arg == "reset-data".to_owned() {
        Some(Command::ResetData)
    } else if arg == "backtest".to_owned() {
        Some(Command::Backtest)
    } else if arg == "talaria".to_owned() {
        Some(Command::Talaria)
    } else if arg == "__dev__".to_owned() {
        Some(Command::Dev)
    } else {
        None
    }
}

} // verus!
