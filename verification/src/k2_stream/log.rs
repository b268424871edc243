//! Log entries, their levels, and where each entry goes: the console, the
//! log file and the network each take the entries from a level on, set for
//! all modules or for one.
use vstd::prelude::*;
use vstd::std_specs::convert::{FromSpecImpl, TryFromSpecImpl};
use crate::name_map::NameMap;
use crate::k2_stream::errors::{K2Error, K2ErrorCode, code_name, error_with};

verus! {

/// How serious a log entry is, from the most serious down.
#[derive(Debug, Clone, Copy, PartialEq, Eq, PartialOrd, Structural)]
pub enum K2LogLevel {
    Emergency,
    Alert,
    Critical,
    Error,
    Warning,
    Notice,
    Info,
    Debug,
    Verbose,
}

/// The position of a level, from the most serious down; the levels are
/// ordered by it.
pub open spec fn level_rank(l: K2LogLevel) -> int {
    match l {
        K2LogLevel::Emergency => 0,
        K2LogLevel::Alert => 1,
        K2LogLevel::Critical => 2,
        K2LogLevel::Error => 3,
        K2LogLevel::Warning => 4,
        K2LogLevel::Notice => 5,
        K2LogLevel::Info => 6,
        K2LogLevel::Debug => 7,
        K2LogLevel::Verbose => 8,
    }
}

/// The level at a position.
pub open spec fn level_at(v: int) -> Option<K2LogLevel> {
    if v == 0 {
        Some(K2LogLevel::Emergency)
    } else if v == 1 {
        Some(K2LogLevel::Alert)
    } else if v == 2 {
        Some(K2LogLevel::Critical)
    } else if v == 3 {
        Some(K2LogLevel::Error)
    } else if v == 4 {
        Some(K2LogLevel::Warning)
    } else if v == 5 {
        Some(K2LogLevel::Notice)
    } else if v == 6 {
        Some(K2LogLevel::Info)
    } else if v == 7 {
        Some(K2LogLevel::Debug)
    } else if v == 8 {
        Some(K2LogLevel::Verbose)
    } else {
        None
    }
}

/// The terminal colour and the label of a level.
pub open spec fn level_style(l: K2LogLevel) -> (Seq<char>, Seq<char>) {
    match l {
        K2LogLevel::Verbose => ("\x1b[37m"@, "[VERBOSE]"@),
        K2LogLevel::Debug => ("\x1b[37m"@, "[DEBUG]"@),
        K2LogLevel::Info => ("\x1b[36m"@, "[INFO]"@),
        K2LogLevel::Notice => ("\x1b[32m"@, "[NOTICE]"@),
        K2LogLevel::Warning => ("\x1b[33m"@, "[WARNING]"@),
        K2LogLevel::Error => ("\x1b[31m"@, "[ERROR]"@),
        K2LogLevel::Critical => ("\x1b[1;31m"@, "[CRITICAL]"@),
        K2LogLevel::Alert => ("\x1b[1;31m"@, "[ALERT]"@),
        K2LogLevel::Emergency => ("\x1b[1;31m"@, "[EMERGENCY]"@),
    }
}

/// How a level is shown: its label in brackets, in its colour.
pub open spec fn level_text(l: K2LogLevel) -> Seq<char> {
    let (color, label) = level_style(l);
    color + "["@ + label + "]"@ + color + "\x1b[0m"@
}

impl K2LogLevel {
    /// The position of the level, from the most serious down.
    pub fn rank(&self) -> (r: u8)
        ensures
            r == level_rank(*self),
    {
        match self {
            K2LogLevel::Emergency => 0,
            K2LogLevel::Alert => 1,
            K2LogLevel::Critical => 2,
            K2LogLevel::Error => 3,
            K2LogLevel::Warning => 4,
            K2LogLevel::Notice => 5,
            K2LogLevel::Info => 6,
            K2LogLevel::Debug => 7,
            K2LogLevel::Verbose => 8,
        }
    }

    /// How the level is shown: its label in brackets, in its colour.
    pub fn to_string(&self) -> (r: String)
        ensures
            r@ == level_text(*self),
    {
        let (color, label) = match self {
            K2LogLevel::Verbose => ("\x1b[37m", "[VERBOSE]"),
            K2LogLevel::Debug => ("\x1b[37m", "[DEBUG]"),
            K2LogLevel::Info => ("\x1b[36m", "[INFO]"),
            K2LogLevel::Notice => ("\x1b[32m", "[NOTICE]"),
            K2LogLevel::Warning => ("\x1b[33m", "[WARNING]"),
            K2LogLevel::Error => ("\x1b[31m", "[ERROR]"),
            K2LogLevel::Critical => ("\x1b[1;31m", "[CRITICAL]"),
            K2LogLevel::Alert => ("\x1b[1;31m", "[ALERT]"),
            K2LogLevel::Emergency => ("\x1b[1;31m", "[EMERGENCY]"),
        };
        String::from_str(color).concat("[").concat(label).concat("]").concat(color).concat("\x1b[0m")
    }
}

impl TryFrom<u8> for K2LogLevel {
    type Error = K2Error;

    /// The level at a position; `OutOfRange` past the last level.
    fn try_from(value: u8) -> (r: Result<Self, K2Error>)
        ensures
            match level_at(value as int) {
                Some(l) => r == Ok::<K2LogLevel, K2Error>(l),
                None => r matches Err(e) && e.code == K2ErrorCode::OutOfRange && e.message@
                    == "Value out of range"@,
            },
    {
        match value {
            0 => Ok(K2LogLevel::Emergency),
            1 => Ok(K2LogLevel::Alert),
            2 => Ok(K2LogLevel::Critical),
            3 => Ok(K2LogLevel::Error),
            4 => Ok(K2LogLevel::Warning),
            5 => Ok(K2LogLevel::Notice),
            6 => Ok(K2LogLevel::Info),
            7 => Ok(K2LogLevel::Debug),
            8 => Ok(K2LogLevel::Verbose),
            _ => Err(K2Error::new(K2ErrorCode::OutOfRange, "Value out of range")),
        }
    }
}

impl TryFromSpecImpl<u8> for K2LogLevel {
    open spec fn obeys_try_from_spec() -> bool {
        false
    }

    open spec fn try_from_spec(v: u8) -> Result<Self, K2Error> {
        match level_at(v as int) {
            Some(l) => Ok(l),
            None => Err(error_with(K2ErrorCode::OutOfRange, "Value out of range"@)),
        }
    }
}

/// A log entry: the module it comes from, its level and its message.
pub struct K2LogStruct {
    pub module: String,
    pub level: K2LogLevel,
    pub message: String,
}

impl K2LogStruct {
    /// How the entry is shown: its message.
    pub fn to_string(&self) -> (r: String)
        ensures
            r@ == self.message@,
    {
        self.message.clone()
    }

    /// A copy of the entry.
    pub fn duplicate(&self) -> (r: Self)
        ensures
            r.module@ == self.module@,
            r.level == self.level,
            r.message@ == self.message@,
    {
        K2LogStruct { module: self.module.clone(), level: self.level, message: self.message.clone() }
    }
}

impl From<K2Error> for K2LogStruct {
    /// The entry that reports an error, at level `Error`, from no module.
    fn from(value: K2Error) -> (r: Self)
        ensures
            r.module@ == Seq::<char>::empty(),
            r.level == K2LogLevel::Error,
            r.message@ == "ErrorCode: "@ + code_name(value.code) + ". "@ + value.message@,
    {
        let message = String::from_str("ErrorCode: ").concat(value.code.to_string().as_str()).concat(". ").concat(value.message.as_str());
        K2LogStruct { module: String::new(), level: K2LogLevel::Error, message }
    }
}

impl FromSpecImpl<K2Error> for K2LogStruct {
    open spec fn obeys_from_spec() -> bool {
        false
    }

    open spec fn from_spec(v: K2Error) -> Self {
        choose|l: K2LogStruct|
            l.module@ == Seq::<char>::empty() && l.level == K2LogLevel::Error && l.message@ == "ErrorCode: "@
                + code_name(v.code) + ". "@ + v.message@
    }
}

/// What `Regex::new(pattern)` followed by `replace_all` with an empty
/// replacement gives for a text: the text without the parts that the pattern
/// matches (the text itself should the pattern not compile).
pub uninterp spec fn without_matches(pattern: Seq<char>, s: Seq<char>) -> Seq<char>;

/// The pattern of terminal colour codes: escape, `[`, digits and `;`, and a
/// letter.
pub open spec fn color_code_pattern() -> Seq<char> {
    "\\x1b\\[[0-9;]*[a-zA-Z]"@
}

/// A text without its terminal colour codes.
pub open spec fn without_color_codes(s: Seq<char>) -> Seq<char> {
    without_matches(color_code_pattern(), s)
}

/// Calls `regex::Regex::new` on `pattern`, then `Regex::replace_all` with an
/// empty replacement. The contract names the answer and claims nothing else
/// of it; the text is left as it is should the pattern not compile.
#[verifier::external_body]
fn strip_matches(pattern: &str, s: &str) -> (r: String)
    ensures
        r@ == without_matches(pattern@, s@),
{
    match regex::Regex::new(pattern) {
        Ok(re) => re.replace_all(s, "").into_owned(),
        Err(_) => s.to_owned(),
    }
}

/// The levels from which the console, the log file and the network take
/// entries.
#[derive(Clone, Copy)]
pub struct LogLevel {
    pub console: K2LogLevel,
    pub file: K2LogLevel,
    pub network: K2LogLevel,
}

/// Whether an entry of level `l` reaches a destination that takes entries
/// from `threshold` on: the levels are compared by their position.
pub open spec fn reaches(l: K2LogLevel, threshold: K2LogLevel) -> bool {
    level_rank(l) >= level_rank(threshold)
}

/// Where one log entry goes: the entry as the console shows it, and as the
/// file and the network get it, without colour codes.
pub struct LogRoutes {
    pub console: Option<K2LogStruct>,
    pub file: Option<K2LogStruct>,
    pub network: Option<K2LogStruct>,
}

/// The levels of each destination, for all modules and for single modules.
pub struct Logger {
    log_level: LogLevel,
    module_level_logger: NameMap<LogLevel>,
}

impl Logger {
    /// The levels for modules without levels of their own.
    pub closed spec fn default_levels(&self) -> LogLevel {
        self.log_level
    }

    /// The levels set for single modules.
    pub closed spec fn module_levels(&self) -> Map<Seq<char>, LogLevel> {
        self.module_level_logger.as_map()
    }

    /// The levels that apply to a module.
    pub open spec fn levels_for(&self, module: Seq<char>) -> LogLevel {
        if self.module_levels().contains_key(module) {
            self.module_levels()[module]
        } else {
            self.default_levels()
        }
    }

    /// A logger whose console takes entries from `Debug` on, its file from
    /// `Warning` on and its network from `Error` on, with no module levels.
    pub fn new() -> (r: Self)
        ensures
            r.default_levels() == (LogLevel {
                console: K2LogLevel::Debug,
                file: K2LogLevel::Warning,
                network: K2LogLevel::Error,
            }),
            r.module_levels() == Map::<Seq<char>, LogLevel>::empty(),
    {
        Logger {
            log_level: LogLevel {
                console: K2LogLevel::Debug,
                file: K2LogLevel::Warning,
                network: K2LogLevel::Error,
            },
            module_level_logger: NameMap::new(),
        }
    }

    /// Sets the levels of one module.
    pub fn set_mode_log_level(&mut self, name: String, log_level: LogLevel)
        ensures
            final(self).default_levels() == old(self).default_levels(),
            final(self).module_levels() == old(self).module_levels().insert(name@, log_level),
    {
        let ghost n = name@;
        self.module_level_logger.insert(name, log_level);
        assert(self.module_levels() =~= old(self).module_levels().insert(n, log_level));
    }

    /// Where an entry goes, by the levels of its module: the console gets it
    /// as it is; the file and the network get it without colour codes.
    pub fn log(&self, log_entry: &K2LogStruct) -> (r: LogRoutes)
        ensures
            ({
                let l = self.levels_for(log_entry.module@);
                &&& (r.console is Some) == reaches(log_entry.level, l.console)
                &&& (r.file is Some) == reaches(log_entry.level, l.file)
                &&& (r.network is Some) == reaches(log_entry.level, l.network)
            }),
            r.console matches Some(e) ==> e.module@ == log_entry.module@ && e.level == log_entry.level
                && e.message@ == log_entry.message@,
            r.file matches Some(e) ==> e.module@ == log_entry.module@ && e.level == log_entry.level
                && e.message@ == without_color_codes(log_entry.message@),
            r.network matches Some(e) ==> e.module@ == log_entry.module@ && e.level == log_entry.level
                && e.message@ == without_color_codes(log_entry.message@),
    {
        let levels = match self.module_level_logger.get(log_entry.module.as_str()) {
            Some(l) => *l,
            None => self.log_level,
        };
        assert(levels == self.levels_for(log_entry.module@));
        let rank = log_entry.level.rank();
        let console = if rank >= levels.console.rank() {
            Some(log_entry.duplicate())
        } else {
            None
        };
        let clean = K2LogStruct {
            module: log_entry.module.clone(),
            level: log_entry.level,
            message: strip_matches("\\x1b\\[[0-9;]*[a-zA-Z]", log_entry.message.as_str()),
        };
        let file = if rank >= levels.file.rank() {
            Some(clean.duplicate())
        } else {
            None
        };
        let network = if rank >= levels.network.rank() {
            Some(clean)
        } else {
            None
        };
        LogRoutes { console, file, network }
    }
}

/// A level's position gives the level back.
pub proof fn law_level_round_trip(l: K2LogLevel)
    ensures
        0 <= level_rank(l) <= 8,
        level_at(level_rank(l)) == Some(l),
{
}

/// A destination takes the entries whose level comes at its own level or
/// after it, so one set to an earlier level takes every entry that one set
/// to a later level takes.
pub proof fn law_reaches_monotone(l: K2LogLevel, a: K2LogLevel, b: K2LogLevel)
    requires
        level_rank(a) <= level_rank(b),
        reaches(l, b),
    ensures
        reaches(l, a),
{
}

} // verus!
