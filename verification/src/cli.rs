//! Command-line arguments: `--config PATH` (or `-c PATH`) and `--help`.
use crate::text::str_eq;
use vstd::prelude::*;

verus! {

/// What the command line asks for.
#[derive(Debug)]
pub enum CliAction {
    /// Run, with the configuration file given, if any.
    Run { config_path: Option<String> },
    /// Print the usage and exit.
    Help,
    /// An argument that is not understood.
    Unknown(String),
}

/// The arguments read left to right: `--config`/`-c` takes the next
/// argument (none: no path), `--help`/`-h` stops with help, anything else
/// stops as unknown.
pub open spec fn cli_s(args: Seq<Seq<char>>, path: Option<Seq<char>>) -> (int, Option<Seq<char>>)
    decreases args.len(),
{
    if args.len() == 0 {
        (0, path)
    } else {
        let a = args[0];
        if a == "--config"@ || a == "-c"@ {
            if args.len() >= 2 {
                cli_s(args.skip(2), Some(args[1]))
            } else {
                (0, None)
            }
        } else if a == "--help"@ || a == "-h"@ {
            (1, path)
        } else {
            (2, Some(a))
        }
    }
}

/// The usage text printed for `--help`.
pub fn usage() -> (r: &'static str)
    ensures
        r@ == "Herald-MCServerMCP\n\nUSAGE:\n  herald-mcserver [--config PATH]\n"@,
{
    "Herald-MCServerMCP\n\nUSAGE:\n  herald-mcserver [--config PATH]\n"
}

/// Reads the program's arguments (without the program name).
pub fn parse_args(args: &Vec<String>) -> (r: CliAction)
    ensures
        ({
            let (kind, v) = cli_s(Seq::new(args@.len(), |i: int| args@[i]@), None);
            &&& kind == 0 ==> (r matches CliAction::Run { config_path } && match v {
                Some(p) => config_path matches Some(c) && c@ == p,
                None => config_path is None,
            })
            &&& kind == 1 ==> r is Help
            &&& kind == 2 ==> (r matches CliAction::Unknown(a) && a@ == v->0)
        }),
{
    let ghost all = Seq::new(args@.len(), |i: int| args@[i]@);
    let mut path: Option<String> = None;
    let mut i: usize = 0;
    assert(all.skip(0) =~= all);
    while i < args.len()
        invariant
            i <= args@.len(),
            all == Seq::new(args@.len(), |i: int| args@[i]@),
            cli_s(all, None) == cli_s(
                all.skip(i as int),
                match path {
                    Some(p) => Some(p@),
                    None => None,
                },
            ),
        decreases args@.len() - i,
    {
        let a = args[i].as_str();
        let ghost rest = all.skip(i as int);
        assert(rest[0] == a@);
        if str_eq(a, "--config") || str_eq(a, "-c") {
            if i + 1 < args.len() {
                path = Some(args[i + 1].clone());
                assert(rest[1] == args@[i + 1]@);
                assert(rest.skip(2) =~= all.skip(i + 2));
                i = i + 2;
            } else {
                return CliAction::Run { config_path: None };
            }
        } else if str_eq(a, "--help") || str_eq(a, "-h") {
            return CliAction::Help;
        } else {
            return CliAction::Unknown(args[i].clone());
        }
    }
    CliAction::Run { config_path: path }
}

} // verus!
