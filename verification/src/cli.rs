//! The command line, and what the environment adds to it.

use crate::text;
use crate::text::{from_chars, parse_u64, position_from, same_text, text, to_chars, trimmed};
use vstd::prelude::*;

verus! {

/// The name and version of the program.
pub const VERSION: &'static str = "unit v0.15.2";

/// What the program can be asked to do.
pub const HELP: &'static str = "A self-replicating software nanobot.\
    \n\
    \nUSAGE:\
    \n  unit                        Start interactive REPL\
    \n  unit --eval \"2 3 + .\"       Evaluate and print result\
    \n  unit --port 4201 --swarm    Start swarm node on port 4201\
    \n  unit --file script.fs       Load a Forth script\
    \n\
    \nOPTIONS:\
    \n  -h, --help                  Show this help\
    \n  -v, --version               Print version and exit\
    \n  -q, --quiet                 Suppress boot banner\
    \n  --port PORT                 Set mesh UDP port (or UNIT_PORT env)\
    \n  --peers HOST:PORT,...       Set seed peers (or UNIT_PEERS env)\
    \n  --ws-port PORT             Set WebSocket bridge port\
    \n  --eval \"FORTH CODE\"         Evaluate code, print output, exit\
    \n  --file PATH                Load a .fs file, then start REPL\
    \n  --no-mesh                  Start without mesh networking\
    \n  --no-prelude               Start without loading prelude.fs\
    \n  --swarm                    Start with SWARM-ON\
    \n  --trust LEVEL              Set trust: all, mesh, family, none\n";

// ---------------------------------------------------------------------------
// Options
// ---------------------------------------------------------------------------

/// The options of a run.
#[derive(Debug)]
pub struct CliArgs {
    pub port: Option<u16>,
    pub peers: Option<String>,
    pub ws_port: Option<u16>,
    pub eval_code: Option<String>,
    pub file_path: Option<String>,
    pub no_mesh: bool,
    pub no_prelude: bool,
    pub swarm: bool,
    pub trust: Option<String>,
    pub quiet: bool,
}

/// The mathematical form of the options.
pub struct ArgsV {
    pub port: Option<u16>,
    pub peers: Option<Seq<char>>,
    pub ws_port: Option<u16>,
    pub eval_code: Option<Seq<char>>,
    pub file_path: Option<Seq<char>>,
    pub no_mesh: bool,
    pub no_prelude: bool,
    pub swarm: bool,
    pub trust: Option<Seq<char>>,
    pub quiet: bool,
}

impl View for CliArgs {
    type V = ArgsV;

    open spec fn view(&self) -> ArgsV {
        ArgsV {
            port: self.port,
            peers: text::opt_text(self.peers),
            ws_port: self.ws_port,
            eval_code: text::opt_text(self.eval_code),
            file_path: text::opt_text(self.file_path),
            no_mesh: self.no_mesh,
            no_prelude: self.no_prelude,
            swarm: self.swarm,
            trust: text::opt_text(self.trust),
            quiet: self.quiet,
        }
    }
}

/// The options of a command line without arguments.
pub open spec fn no_options() -> ArgsV {
    ArgsV {
        port: None,
        peers: None,
        ws_port: None,
        eval_code: None,
        file_path: None,
        no_mesh: false,
        no_prelude: false,
        swarm: false,
        trust: None,
        quiet: false,
    }
}

/// What a command line asks for.
#[derive(Debug)]
pub enum Command {
    /// A run with these options.
    Run(CliArgs),
    Help,
    Version,
    /// There is no such option.
    Unknown(String),
}

/// The mathematical form of what a command line asks for.
pub enum CommandV {
    Run(ArgsV),
    Help,
    Version,
    Unknown(Seq<char>),
}

impl View for Command {
    type V = CommandV;

    open spec fn view(&self) -> CommandV {
        match self {
            Command::Run(a) => CommandV::Run(a@),
            Command::Help => CommandV::Help,
            Command::Version => CommandV::Version,
            Command::Unknown(s) => CommandV::Unknown(s@),
        }
    }
}

/// The argument at a place, if there is one.
pub open spec fn arg_at(args: Seq<Seq<char>>, i: int) -> Option<Seq<char>> {
    if 0 <= i < args.len() {
        Some(args[i])
    } else {
        None
    }
}

/// The port that a text writes, if it writes one.
pub open spec fn port_in(s: Option<Seq<char>>) -> Option<u16> {
    match s {
        Some(s) => match text::in_range(text::parse_nat(s), 0, u16::MAX as int) {
            Some(n) => Some(n as u16),
            None => None,
        },
        None => None,
    }
}

/// The options after one more argument, which stands at a place and may take the next as its
/// value; and how many arguments it takes. None if there is no such option.
pub open spec fn option_read(args: Seq<Seq<char>>, i: int, a: ArgsV) -> Option<(ArgsV, int)> {
    let o = args[i];
    let value = arg_at(args, i + 1);
    if o == "-q"@ || o == "--quiet"@ {
        Some((ArgsV { quiet: true, ..a }, 1))
    } else if o == "--port"@ {
        Some((ArgsV { port: port_in(value), ..a }, 2))
    } else if o == "--peers"@ {
        Some((ArgsV { peers: value, ..a }, 2))
    } else if o == "--ws-port"@ {
        Some((ArgsV { ws_port: port_in(value), ..a }, 2))
    } else if o == "--eval"@ {
        Some((ArgsV { eval_code: value, ..a }, 2))
    } else if o == "--file"@ {
        Some((ArgsV { file_path: value, ..a }, 2))
    } else if o == "--no-mesh"@ {
        Some((ArgsV { no_mesh: true, ..a }, 1))
    } else if o == "--no-prelude"@ {
        Some((ArgsV { no_prelude: true, ..a }, 1))
    } else if o == "--swarm"@ {
        Some((ArgsV { swarm: true, ..a }, 1))
    } else if o == "--trust"@ {
        Some((ArgsV { trust: value, ..a }, 2))
    } else {
        None
    }
}

/// What the arguments from a place on ask for, behind these options. The first argument that asks
/// for help or the version, or that is no option, decides.
pub open spec fn command_from(args: Seq<Seq<char>>, i: int, a: ArgsV) -> CommandV
    decreases args.len() - i,
{
    if i >= args.len() || i < 0 {
        CommandV::Run(a)
    } else if args[i] == "-h"@ || args[i] == "--help"@ {
        CommandV::Help
    } else if args[i] == "-v"@ || args[i] == "--version"@ {
        CommandV::Version
    } else {
        match option_read(args, i, a) {
            Some((b, n)) => if i + n >= args.len() {
                CommandV::Run(b)
            } else if n == 2 {
                command_from(args, i + 2, b)
            } else {
                command_from(args, i + 1, b)
            },
            None => CommandV::Unknown(args[i]),
        }
    }
}

fn value_at(args: &[String], i: usize) -> (r: Option<String>)
    ensures
        text::opt_text(r) == arg_at(text::texts(args@), i as int),
{
    if i < args.len() {
        Some(args[i].clone())
    } else {
        None
    }
}

/// The port that a text writes, if it writes one.
pub fn parse_port(s: &Option<String>) -> (r: Option<u16>)
    ensures
        r == port_in(text::opt_text(*s)),
{
    match s {
        Some(s) => match parse_u64(s.as_str(), 65535) {
            Some(n) => Some(n as u16),
            None => None,
        },
        None => None,
    }
}

fn is_one_of(o: &str, a: &str, b: &str) -> (r: bool)
    ensures
        r == (o@ == a@ || o@ == b@),
{
    same_text(o, a) || same_text(o, b)
}

fn read_option(args: &[String], i: usize, a: CliArgs) -> (r: Option<(CliArgs, usize)>)
    requires
        i < args@.len(),
        i < usize::MAX,
    ensures
        match option_read(text::texts(args@), i as int, a@) {
            Some((b, n)) => r matches Some((c, k)) && c@ == b && k == n && (k == 1 || k == 2),
            None => r.is_none(),
        },
{
    let mut a = a;
    let o = args[i].as_str();
    assert(text::texts(args@)[i as int] == o@);
    if is_one_of(o, "-q", "--quiet") {
        a.quiet = true;
        return Some((a, 1));
    }
    let value = value_at(args, i + 1);
    if same_text(o, "--port") {
        a.port = parse_port(&value);
        Some((a, 2))
    } else if same_text(o, "--peers") {
        a.peers = value;
        Some((a, 2))
    } else if same_text(o, "--ws-port") {
        a.ws_port = parse_port(&value);
        Some((a, 2))
    } else if same_text(o, "--eval") {
        a.eval_code = value;
        Some((a, 2))
    } else if same_text(o, "--file") {
        a.file_path = value;
        Some((a, 2))
    } else if same_text(o, "--no-mesh") {
        a.no_mesh = true;
        Some((a, 1))
    } else if same_text(o, "--no-prelude") {
        a.no_prelude = true;
        Some((a, 1))
    } else if same_text(o, "--swarm") {
        a.swarm = true;
        Some((a, 1))
    } else if same_text(o, "--trust") {
        a.trust = value;
        Some((a, 2))
    } else {
        None
    }
}

/// What a command line asks for.
pub fn parse_args(args: &[String]) -> (c: Command)
    ensures
        c@ == command_from(text::texts(args@), 0, no_options()),
{
    let mut a = CliArgs {
        port: None,
        peers: None,
        ws_port: None,
        eval_code: None,
        file_path: None,
        no_mesh: false,
        no_prelude: false,
        swarm: false,
        trust: None,
        quiet: false,
    };
    let ghost all = text::texts(args@);
    let n = args.len();
    let mut i: usize = 0;
    while i < n
        invariant
            n == args@.len(),
            all == text::texts(args@),
            command_from(all, 0, no_options()) == command_from(all, i as int, a@),
        decreases n - i,
    {
        let o = args[i].as_str();
        assert(all[i as int] == o@);
        if is_one_of(o, "-h", "--help") {
            return Command::Help;
        }
        if is_one_of(o, "-v", "--version") {
            return Command::Version;
        }
        match read_option(args, i, a) {
            Some((b, k)) => {
                a = b;
                if k == 2 {
                    if n - i <= 2 {
                        return Command::Run(a);
                    }
                    i = i + 2;
                } else {
                    i = i + 1;
                }
            },
            None => return Command::Unknown(args[i].clone()),
        }
    }
    Command::Run(a)
}

// ---------------------------------------------------------------------------
// Where the environment helps out
// ---------------------------------------------------------------------------

/// The port of the mesh: from the command line, else from the environment, else any.
pub fn mesh_port(given: Option<u16>, env: &Option<String>) -> (p: u16)
    ensures
        p == (match given {
            Some(x) => x,
            None => match port_in(text::opt_text(*env)) {
                Some(x) => x,
                None => 0,
            },
        }),
{
    match given {
        Some(x) => x,
        None => match parse_port(env) {
            Some(x) => x,
            None => 0,
        },
    }
}

/// The port of the WebSocket bridge that is asked for, if one is.
pub open spec fn ws_port_asked(given: Option<u16>, env: Option<Seq<char>>) -> Option<u16> {
    match given {
        Some(x) => Some(x),
        None => port_in(env),
    }
}

/// The port of the WebSocket bridge: from the command line, else from the environment, else two
/// thousand above that of the mesh; none if the mesh takes any port.
pub fn ws_port(given: Option<u16>, env: &Option<String>, port: u16) -> (p: u16)
    requires
        ws_port_asked(given, text::opt_text(*env)).is_some() || port + 2000 <= u16::MAX,
    ensures
        p == (match ws_port_asked(given, text::opt_text(*env)) {
            Some(x) => x,
            None => if port > 0 {
                (port + 2000) as u16
            } else {
                0
            },
        }),
{
    match given {
        Some(x) => x,
        None => match parse_port(env) {
            Some(x) => x,
            None => if port > 0 {
                port + 2000
            } else {
                0
            },
        },
    }
}

/// The addresses between the commas of a text, without blanks around them. Empty ones are left
/// out.
pub open spec fn addresses(s: Seq<char>) -> Seq<Seq<char>>
    decreases s.len(),
{
    let k = text::index_from(s, ',', 0);
    if s.len() == 0 {
        Seq::empty()
    } else if k >= s.len() || k < 0 {
        seq![text::trim(s)]
    } else if k == 0 {
        addresses(s.skip(1))
    } else {
        seq![text::trim(s.take(k))] + addresses(s.skip(k + 1))
    }
}

/// The addresses of the seed peers.
pub fn seed_addresses(s: &str) -> (r: Vec<String>)
    ensures
        text::texts(r@) == addresses(s@),
{
    let v = to_chars(s);
    let mut r: Vec<String> = Vec::new();
    let mut i: usize = 0;
    assert(v@.skip(0) =~= s@);
    assert(text::texts(r@) =~= Seq::<Seq<char>>::empty());
    assert(text::texts(r@) + addresses(v@.skip(0)) =~= addresses(s@));
    while i < v.len()
        invariant
            i <= v@.len(),
            v@ == s@,
            text::texts(r@) + addresses(v@.skip(i as int)) == addresses(s@),
        decreases v@.len() - i,
    {
        let ghost rest = v@.skip(i as int);
        let k = position_from(&v, ',', i);
        proof {
            lemma_shifted(v@, ',', i as int);
            text::lemma_index_from(rest, ',', 0);
            assert(text::index_from(rest, ',', 0) == k - i);
        }
        let ghost before = text::texts(r@);
        if k > i {
            let piece = from_chars(&v, i, k);
            let t = trimmed(piece.as_str());
            let ghost tv = t@;
            r.push(t);
            assert(text::texts(r@) =~= before.push(tv));
            assert(rest.take(k - i) =~= v@.subrange(i as int, k as int));
            if k == v.len() {
                assert(rest.take(k - i) =~= rest);
            }
        }
        if k < v.len() {
            assert(rest.skip(k - i + 1) =~= v@.skip(k + 1));
            assert(rest.skip(1) =~= v@.skip(i + 1));
            i = k + 1;
        } else {
            i = k;
        }
        assert(addresses(v@.skip(v@.len() as int)) =~= Seq::<Seq<char>>::empty());
        assert(text::texts(r@) + addresses(v@.skip(i as int)) =~= addresses(s@));
    }
    assert(addresses(v@.skip(i as int)) =~= Seq::<Seq<char>>::empty());
    assert(text::texts(r@) =~= addresses(s@));
    r
}

proof fn lemma_shifted(s: Seq<char>, c: char, i: int)
    requires
        0 <= i <= s.len(),
    ensures
        text::index_from(s.skip(i), c, 0) == text::index_from(s, c, i) - i,
{
    lemma_shifted_from(s, c, i, i);
}

proof fn lemma_shifted_from(s: Seq<char>, c: char, i: int, j: int)
    requires
        0 <= i <= j <= s.len(),
    ensures
        text::index_from(s.skip(i), c, j - i) == text::index_from(s, c, j) - i,
    decreases s.len() - j,
{
    if j < s.len() {
        assert(s.skip(i)[j - i] == s[j]);
        lemma_shifted_from(s, c, i, j + 1);
    }
}

/// The word that sets a level of trust.
pub open spec fn trust_word_of(level: Seq<char>) -> Option<Seq<char>> {
    if level == "all"@ {
        Some("TRUST-ALL"@)
    } else if level == "mesh"@ {
        Some("TRUST-MESH"@)
    } else if level == "family"@ {
        Some("TRUST-FAMILY"@)
    } else if level == "none"@ {
        Some("TRUST-NONE"@)
    } else {
        None
    }
}

/// The word that sets a level of trust.
pub fn trust_word(level: &str) -> (r: Option<String>)
    ensures
        text::opt_text(r) == trust_word_of(level@),
{
    if same_text(level, "all") {
        Some(text("TRUST-ALL"))
    } else if same_text(level, "mesh") {
        Some(text("TRUST-MESH"))
    } else if same_text(level, "family") {
        Some(text("TRUST-FAMILY"))
    } else if same_text(level, "none") {
        Some(text("TRUST-NONE"))
    } else {
        None
    }
}

} // verus!
