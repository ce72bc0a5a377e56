//! The llama-server process, as seen by the launcher: its state, its log lines
//! and the decisions taken on them.
//!
//! Spawning the process and reading its pipes is the caller's work; this module
//! says which state follows, how a log line is classified, and what is kept.
use vstd::prelude::*;
use std::collections::VecDeque;
use crate::pattern::{pattern_capture, pattern_matches, regex_capture, regex_match};
use crate::text::{
    chars_of, contains, count_char, count_char_exec, dec_int, first_occurrence,
    find, fmt_i64, is_digit, join, join_exec, lemma_split_nonempty, push_chars, push_str,
    slice_sub, split, split_exec, str_contains, string_from, string_of, strip_trailing,
    strip_trailing_end, trim, trim_bounds, trim_start, views,
};

verus! {

/// Largest number of log lines kept; older lines are dropped first.
pub const MAX_LOG_LINES: usize = 10000;

/// Messages that the engine reports, resolved to text by the interface.
#[derive(Clone, Copy, Debug, PartialEq, Eq)]
pub enum MessageKey {
    ErrServerModelMissing,
    ErrPortConflict,
    ErrStartFailed,
    StatusIdle,
    StatusStarting,
    StatusRunning,
    StatusStopping,
    StatusError,
    StatusServerExited,
    StatusServerCrashed,
}

/// An error of the state machine: a message key, possibly with a detail
/// (a system error text, an exit code).
#[derive(Clone, Debug, PartialEq)]
pub enum ErrorInfo {
    Key(MessageKey),
    WithDetail(MessageKey, String),
}

impl ErrorInfo {
    /// The message key.
    pub fn key(&self) -> (res: MessageKey)
        ensures
            res == match self {
                ErrorInfo::Key(k) => *k,
                ErrorInfo::WithDetail(k, _) => *k,
            },
    {
        match self {
            ErrorInfo::Key(k) => *k,
            ErrorInfo::WithDetail(k, _) => *k,
        }
    }

    /// Text of the error, given the text of its key in the chosen language:
    /// the key's text, followed by `": "` and the detail when there is one.
    pub fn text(&self, key_text: &str) -> (res: String)
        ensures
            res@ == match self {
                ErrorInfo::Key(_) => key_text@,
                ErrorInfo::WithDetail(_, d) => key_text@ + ": "@ + d@,
            },
    {
        match self {
            ErrorInfo::Key(_) => string_from(key_text),
            ErrorInfo::WithDetail(_, d) => {
                let mut s = string_from(key_text);
                push_str(&mut s, ": ");
                push_str(&mut s, d.as_str());
                s
            },
        }
    }
}

#[derive(Clone, Debug, PartialEq)]
pub enum ServerState {
    Idle,
    Starting,
    Running,
    Stopping,
    Error(ErrorInfo),
}

#[derive(Clone, Copy, Debug, PartialEq, Eq)]
pub enum LogLevel {
    Info,
    Warn,
    Error,
}

#[derive(Debug)]
pub struct LogEntry {
    pub text: String,
    pub level: LogLevel,
}

impl Clone for LogEntry {
    fn clone(&self) -> (res: Self)
        ensures
            res == *self,
    {
        LogEntry { text: self.text.clone(), level: self.level }
    }
}

// ───────────── log level of a line ─────────────

/// The timestamp part may hold only digits and dots.
pub open spec fn timestamp_chars(ts: Seq<char>) -> bool {
    forall|k: int| 0 <= k < ts.len() ==> is_digit(#[trigger] ts[k]) || ts[k] == '.'
}

/// Level marker of a line that starts with its timestamp (see `marked_level`).
pub open spec fn marked_from(t: Seq<char>) -> Option<LogLevel> {
    if t.len() == 0 || !is_digit(t[0]) {
        None
    } else {
        match first_occurrence(t, seq![' ']) {
            None => None,
            Some(p) => {
                let ts = t.take(p);
                let rest = t.skip(p + 1);
                if !timestamp_chars(ts) || count_char(ts, '.') < 2 || rest.len() == 0 {
                    None
                } else if rest.len() == 1 || rest[1] == ' ' {
                    if rest[0] == 'I' {
                        Some(LogLevel::Info)
                    } else if rest[0] == 'W' {
                        Some(LogLevel::Warn)
                    } else if rest[0] == 'E' {
                        Some(LogLevel::Error)
                    } else {
                        None
                    }
                } else {
                    None
                }
            },
        }
    }
}

/// Level from a line of the form `<timestamp> <letter> ...`: after leading white
/// space, a timestamp that starts with a digit, holds only digits and at least
/// two dots, then one space, then `I`, `W` or `E` alone or followed by a space.
pub open spec fn marked_level(line: Seq<char>) -> Option<LogLevel> {
    marked_from(trim_start(line))
}

fn timestamp_chars_exec(ts: &[char]) -> (res: bool)
    ensures
        res == timestamp_chars(ts@),
{
    let mut k: usize = 0;
    while k < ts.len()
        invariant
            k <= ts@.len(),
            forall|j: int| 0 <= j < k ==> is_digit(#[trigger] ts@[j]) || ts@[j] == '.',
        decreases ts@.len() - k,
    {
        if !(crate::text::char_is_digit(ts[k]) || ts[k] == '.') {
            proof {
                assert(!(is_digit(ts@[k as int]) || ts@[k as int] == '.'));
            }
            return false;
        }
        k = k + 1;
    }
    true
}

fn level_letter(rest: &[char]) -> (res: Option<LogLevel>)
    requires
        rest@.len() > 0,
    ensures
        res == if rest@.len() == 1 || rest@[1] == ' ' {
            if rest@[0] == 'I' {
                Some(LogLevel::Info)
            } else if rest@[0] == 'W' {
                Some(LogLevel::Warn)
            } else if rest@[0] == 'E' {
                Some(LogLevel::Error)
            } else {
                None
            }
        } else {
            None
        },
{
    if rest.len() == 1 || rest[1] == ' ' {
        if rest[0] == 'I' {
            Some(LogLevel::Info)
        } else if rest[0] == 'W' {
            Some(LogLevel::Warn)
        } else if rest[0] == 'E' {
            Some(LogLevel::Error)
        } else {
            None
        }
    } else {
        None
    }
}

fn marked_from_exec(t: &[char]) -> (res: Option<LogLevel>)
    ensures
        res == marked_from(t@),
{
    if t.len() == 0 || !crate::text::char_is_digit(t[0]) {
        return None;
    }
    let space = vec![' '];
    proof {
        assert(space@ =~= seq![' ']);
        crate::text::lemma_first_occurrence_occurs(t@, space@);
    }
    let p = match find(t, space.as_slice()) {
        None => {
            return None;
        },
        Some(p) => p,
    };
    let ts = slice_sub(t, 0, p);
    let rest = slice_sub(t, p + 1, t.len());
    proof {
        assert(ts@ =~= t@.take(p as int));
        assert(rest@ =~= t@.skip(p + 1));
    }
    if !timestamp_chars_exec(ts.as_slice()) {
        return None;
    }
    if count_char_exec(ts.as_slice(), '.') < 2 {
        return None;
    }
    if rest.len() == 0 {
        return None;
    }
    level_letter(rest.as_slice())
}

/// The single-letter level marker that follows a timestamp, if the line has one.
pub fn detect_log_level(line: &str) -> (res: Option<LogLevel>)
    ensures
        res == marked_level(line@),
{
    let all = chars_of(line);
    let lead = crate::text::trim_start_vec(all.as_slice());
    marked_from_exec(lead.as_slice())
}

/// Level of a line: its marker if it has one, else `WARN`/`warn` gives a warning,
/// then `ERROR`/`error` an error, anything else information.
pub open spec fn line_level(line: Seq<char>) -> LogLevel {
    match marked_level(line) {
        Some(l) => l,
        None => if contains(line, "WARN"@) || contains(line, "warn"@) {
            LogLevel::Warn
        } else if contains(line, "ERROR"@) || contains(line, "error"@) {
            LogLevel::Error
        } else {
            LogLevel::Info
        },
    }
}

/// Level of a server output line: the marker, or the words it contains.
pub fn classify_log_line(line: &str) -> (res: LogLevel)
    ensures
        res == line_level(line@),
{
    match detect_log_level(line) {
        Some(l) => l,
        None => {
            let cs = chars_of(line);
            if str_contains(cs.as_slice(), "WARN") || str_contains(cs.as_slice(), "warn") {
                LogLevel::Warn
            } else if str_contains(cs.as_slice(), "ERROR") || str_contains(cs.as_slice(), "error") {
                LogLevel::Error
            } else {
                LogLevel::Info
            }
        },
    }
}

// ───────────── progress of prompt processing ─────────────

pub open spec fn is_progress_stop(c: char) -> bool {
    c == ' ' || c == '\t' || c == ',' || c == '\n'
}

/// Index of the first character that ends the number (or the length).
pub open spec fn stop_index(s: Seq<char>) -> int
    decreases s.len(),
{
    if s.len() == 0 {
        0
    } else if is_progress_stop(s[0]) {
        0
    } else {
        1 + stop_index(s.drop_first())
    }
}

/// The text of the number in `progress = <number>`, trimmed: what follows the
/// first `progress = ` up to the first space, tab, comma or newline.
pub open spec fn progress_text(text: Seq<char>) -> Option<Seq<char>> {
    match first_occurrence(text, "progress = "@) {
        None => None,
        Some(p) => {
            let rest = text.skip(p + 11);
            Some(trim(rest.take(stop_index(rest))))
        },
    }
}

proof fn lemma_stop_index_bounds(s: Seq<char>)
    ensures
        0 <= stop_index(s) <= s.len(),
    decreases s.len(),
{
    if s.len() > 0 && !is_progress_stop(s[0]) {
        lemma_stop_index_bounds(s.drop_first());
    }
}

proof fn lemma_stop_index_at(s: Seq<char>, i: int)
    requires
        0 <= i <= s.len(),
        forall|k: int| 0 <= k < i ==> !is_progress_stop(#[trigger] s[k]),
        i == s.len() || is_progress_stop(s[i]),
    ensures
        stop_index(s) == i,
    decreases i,
{
    if i > 0 {
        lemma_stop_index_at(s.drop_first(), i - 1);
    }
}

/// The number text after `progress = ` in a log line, if the line reports one.
/// (Reading it as a fraction and clamping it is left to the caller.)
pub fn progress_token(text: &str) -> (res: Option<String>)
    ensures
        match res {
            Some(t) => progress_text(text@) == Some(t@),
            None => progress_text(text@) is None,
        },
{
    let cs = chars_of(text);
    let key = chars_of("progress = ");
    proof {
        reveal_strlit("progress = ");
    }
    let p = match find(cs.as_slice(), key.as_slice()) {
        None => {
            return None;
        },
        Some(p) => p,
    };
    proof {
        crate::text::lemma_first_occurrence_occurs(cs@, key@);
        assert(key@.len() == 11);
        assert(first_occurrence(cs@, key@) == Some(p as int));
        assert(crate::text::occurs_at(cs@, key@, p as int));
        assert(p + 11 <= cs@.len());
        assert(cs@.len() == cs.len());
    }
    let start = p + 11;
    let rest = slice_sub(cs.as_slice(), start, cs.len());
    proof {
        assert(rest@ =~= cs@.skip(p + 11));
    }
    let mut e: usize = 0;
    while e < rest.len() && !(rest[e] == ' ' || rest[e] == '\t' || rest[e] == ',' || rest[e] == '\n')
        invariant
            e <= rest@.len(),
            forall|k: int| 0 <= k < e ==> !is_progress_stop(#[trigger] rest@[k]),
        decreases rest@.len() - e,
    {
        e = e + 1;
    }
    proof {
        lemma_stop_index_at(rest@, e as int);
    }
    let num = slice_sub(rest.as_slice(), 0, e);
    proof {
        assert(num@ =~= rest@.take(e as int));
    }
    let trimmed = crate::text::trim_vec(num.as_slice());
    Some(string_of(trimmed.as_slice()))
}

// ───────────── bounded log buffer ─────────────

/// The most recent log lines, at most `MAX_LOG_LINES` of them.
pub struct LogBuffer {
    lines: VecDeque<LogEntry>,
}

impl View for LogBuffer {
    type V = Seq<LogEntry>;

    closed spec fn view(&self) -> Seq<LogEntry> {
        self.lines@
    }
}

/// What the buffer holds after `entry` is added to `lines`.
pub open spec fn after_push(lines: Seq<LogEntry>, entry: LogEntry) -> Seq<LogEntry> {
    if lines.len() >= MAX_LOG_LINES {
        lines.drop_first().push(entry)
    } else {
        lines.push(entry)
    }
}

impl LogBuffer {
    #[verifier::type_invariant]
    spec fn bounded(&self) -> bool {
        self.lines@.len() <= MAX_LOG_LINES
    }

    pub fn new() -> (res: Self)
        ensures
            res@ == Seq::<LogEntry>::empty(),
    {
        LogBuffer { lines: VecDeque::new() }
    }

    /// Number of lines held; never more than `MAX_LOG_LINES`.
    pub fn len(&self) -> (res: usize)
        ensures
            res == self@.len(),
            res <= MAX_LOG_LINES,
    {
        proof {
            use_type_invariant(self);
        }
        self.lines.len()
    }

    /// Adds a line, dropping the oldest one when the buffer is full.
    pub fn push(&mut self, entry: LogEntry)
        ensures
            final(self)@ == after_push(old(self)@, entry),
    {
        proof {
            use_type_invariant(&*self);
        }
        let mut lines = VecDeque::new();
        std::mem::swap(&mut lines, &mut self.lines);
        if lines.len() >= MAX_LOG_LINES {
            let _ = lines.pop_front();
        }
        lines.push_back(entry);
        self.lines = lines;
    }

    pub fn clear(&mut self)
        ensures
            final(self)@ == Seq::<LogEntry>::empty(),
    {
        self.lines = VecDeque::new();
    }

    /// Copies of the lines, oldest first.
    pub fn entries(&self) -> (res: Vec<LogEntry>)
        ensures
            res@ == self@,
    {
        let mut out: Vec<LogEntry> = Vec::new();
        let mut i: usize = 0;
        while i < self.lines.len()
            invariant
                i <= self.lines@.len(),
                out@ == self.lines@.take(i as int),
            decreases self.lines@.len() - i,
        {
            out.push(self.lines[i].clone());
            i = i + 1;
            proof {
                assert(self.lines@.take(i as int) =~= self.lines@.take(i - 1).push(
                    self.lines@[i - 1],
                ));
            }
        }
        proof {
            assert(self.lines@.take(self.lines@.len() as int) =~= self.lines@);
        }
        out
    }

    /// Some line says `llama_server: listening on`: the server is ready.
    pub fn is_listening(&self) -> (res: bool)
        ensures
            res == exists|i: int|
                0 <= i < self@.len() && contains(
                    #[trigger] self@[i].text@,
                    "llama_server: listening on"@,
                ),
    {
        let mut i: usize = 0;
        while i < self.lines.len()
            invariant
                i <= self.lines@.len(),
                forall|j: int|
                    0 <= j < i ==> !contains(
                        #[trigger] self.lines@[j].text@,
                        "llama_server: listening on"@,
                    ),
            decreases self.lines@.len() - i,
        {
            let cs = chars_of(self.lines[i].text.as_str());
            if str_contains(cs.as_slice(), "llama_server: listening on") {
                return true;
            }
            i = i + 1;
        }
        false
    }
}

// ───────────── server state ─────────────

impl ServerState {
    pub fn is_running(&self) -> (res: bool)
        ensures
            res == (*self is Running),
    {
        match self {
            ServerState::Running => true,
            _ => false,
        }
    }

    /// The key of the status text.
    pub fn status_key(&self) -> (res: MessageKey)
        ensures
            res == match self {
                ServerState::Idle => MessageKey::StatusIdle,
                ServerState::Starting => MessageKey::StatusStarting,
                ServerState::Running => MessageKey::StatusRunning,
                ServerState::Stopping => MessageKey::StatusStopping,
                ServerState::Error(_) => MessageKey::StatusError,
            },
    {
        match self {
            ServerState::Idle => MessageKey::StatusIdle,
            ServerState::Starting => MessageKey::StatusStarting,
            ServerState::Running => MessageKey::StatusRunning,
            ServerState::Stopping => MessageKey::StatusStopping,
            ServerState::Error(_) => MessageKey::StatusError,
        }
    }

    /// Status line, given the text of `status_key()` and, for an error, the text
    /// of the error's key: `"<status>: <error text>"` for an error.
    pub fn status_text(&self, status_label: &str, error_key_text: &str) -> (res: String)
        ensures
            res@ == match self {
                ServerState::Error(e) => status_label@ + ": "@ + match e {
                    ErrorInfo::Key(_) => error_key_text@,
                    ErrorInfo::WithDetail(_, d) => error_key_text@ + ": "@ + d@,
                },
                _ => status_label@,
            },
    {
        match self {
            ServerState::Error(e) => {
                let mut s = string_from(status_label);
                push_str(&mut s, ": ");
                let t = e.text(error_key_text);
                push_str(&mut s, t.as_str());
                proof {
                    assert(s@ =~= status_label@ + ": "@ + t@);
                }
                s
            },
            _ => string_from(status_label),
        }
    }

    /// Decides a start request. A running server is left alone; a missing server
    /// or model path, or a port equal to the RPC port, is an error; otherwise the
    /// server is starting and the returned `true` asks the caller to spawn it.
    pub fn begin_start(&mut self, server_path: &str, model_path: &str, port: u16, rpc_port: u16) -> (spawn: bool)
        ensures
            (*old(self)) is Running ==> !spawn && *final(self) == *old(self),
            !((*old(self)) is Running) ==> if server_path@.len() == 0 || model_path@.len() == 0 {
                !spawn && *final(self) == ServerState::Error(
                    ErrorInfo::Key(MessageKey::ErrServerModelMissing),
                )
            } else if port == rpc_port {
                !spawn && *final(self) == ServerState::Error(
                    ErrorInfo::Key(MessageKey::ErrPortConflict),
                )
            } else {
                spawn && *final(self) == ServerState::Starting
            },
    {
        if self.is_running() {
            return false;
        }
        if server_path.is_empty() || model_path.is_empty() {
            *self = ServerState::Error(ErrorInfo::Key(MessageKey::ErrServerModelMissing));
            return false;
        }
        if port == rpc_port {
            *self = ServerState::Error(ErrorInfo::Key(MessageKey::ErrPortConflict));
            return false;
        }
        *self = ServerState::Starting;
        true
    }

    /// Spawning failed with the given system error text.
    pub fn start_failed(&mut self, detail: String)
        ensures
            *final(self) == ServerState::Error(ErrorInfo::WithDetail(MessageKey::ErrStartFailed, detail)),
    {
        *self = ServerState::Error(ErrorInfo::WithDetail(MessageKey::ErrStartFailed, detail));
    }

    /// After a poll: an exited process makes the server idle; otherwise a starting
    /// server counts as running.
    pub fn after_poll(&mut self, exited: bool)
        ensures
            exited ==> *final(self) == ServerState::Idle,
            !exited && (*old(self)) is Starting ==> *final(self) == ServerState::Running,
            !exited && !((*old(self)) is Starting) ==> *final(self) == *old(self),
    {
        if exited {
            *self = ServerState::Idle;
        }
        match self {
            ServerState::Starting => {
                *self = ServerState::Running;
            },
            _ => {},
        }
    }

    /// A stop request: when a process was there, it was killed and the server is idle.
    pub fn after_stop(&mut self, had_process: bool)
        ensures
            had_process ==> *final(self) == ServerState::Idle,
            !had_process ==> *final(self) == *old(self),
    {
        if had_process {
            *self = ServerState::Idle;
        }
    }
}

/// Debug text of an exit code (`Some(3)`, `None`).
pub open spec fn code_text(code: Option<i32>) -> Seq<char> {
    match code {
        Some(c) => "Some("@ + dec_int(c as int) + ")"@,
        None => "None"@,
    }
}

/// The line logged when the process ends: the "exited" text after a successful
/// exit, else the "crashed" text followed by `": "` and the exit code.
pub fn exit_log_entry(success: bool, code: Option<i32>, exited_text: &str, crashed_text: &str) -> (res: LogEntry)
    ensures
        res.level == LogLevel::Warn,
        res.text@ == if success {
            exited_text@
        } else {
            crashed_text@ + ": "@ + code_text(code)
        },
{
    if success {
        return LogEntry { text: string_from(exited_text), level: LogLevel::Warn };
    }
    let mut s = string_from(crashed_text);
    push_str(&mut s, ": ");
    match code {
        Some(c) => {
            push_str(&mut s, "Some(");
            let d = fmt_i64(c as i64);
            push_str(&mut s, d.as_str());
            push_str(&mut s, ")");
        },
        None => {
            push_str(&mut s, "None");
        },
    }
    LogEntry { text: s, level: LogLevel::Warn }
}

// ───────────── split model files ─────────────

/// A file of a split model: `.part<N>of<M>` at the end, optionally followed by `.gguf`.
pub const SHARD_FILE_PATTERN: &'static str = "\\.part\\d+of\\d+(?:\\.gguf)?$";

/// The part numbers of a split model file name.
pub const SHARD_PART_PATTERN: &'static str = "\\.part(\\d+)of(\\d+)";

pub open spec fn shard_file(name: Seq<char>) -> bool {
    regex_match(SHARD_FILE_PATTERN@, name) == Some(true)
}

/// The name of the first part of the split model `name` belongs to
/// (`.partNofM` becomes `.part1ofM`); other names are kept.
pub open spec fn first_shard_name(name: Seq<char>) -> Seq<char> {
    first_shard_from(name, shard_file(name), regex_capture(SHARD_PART_PATTERN@, name, 2))
}

/// Whether `filename` is one part of a split model.
pub fn is_shard_file(filename: &str) -> (res: bool)
    ensures
        res == shard_file(filename@),
{
    match pattern_matches(SHARD_FILE_PATTERN, filename) {
        Some(m) => m,
        None => false,
    }
}

/// The first part's name from what the shard patterns said of `filename`:
/// whether it is a part (`shard`) and the part-number capture (`capture`, as
/// `pattern_capture` gives it).
pub open spec fn first_shard_from(
    filename: Seq<char>,
    shard: bool,
    capture: Option<Option<(Seq<char>, Seq<char>, Seq<char>)>>,
) -> Seq<char> {
    if !shard {
        filename
    } else {
        match capture {
            Some(Some((before, total, after))) => before + ".part1of"@ + total + after,
            _ => filename,
        }
    }
}

/// The capture as text views.
pub open spec fn capture_view(c: Option<Option<(String, String, String)>>) -> Option<
    Option<(Seq<char>, Seq<char>, Seq<char>)>,
> {
    match c {
        Some(Some(t)) => Some(Some((t.0@, t.1@, t.2@))),
        Some(None) => Some(None),
        None => None,
    }
}

/// The first part's name from the results of the shard patterns (see
/// `first_shard_from`).
pub fn first_shard_name_from(
    filename: &str,
    shard: bool,
    capture: Option<Option<(String, String, String)>>,
) -> (res: String)
    ensures
        res@ == first_shard_from(filename@, shard, capture_view(capture)),
{
    if !shard {
        return string_from(filename);
    }
    match capture {
        Some(Some((before, total, after))) => {
            let mut s = before;
            push_str(&mut s, ".part1of");
            push_str(&mut s, total.as_str());
            push_str(&mut s, after.as_str());
            s
        },
        _ => string_from(filename),
    }
}

/// The file name the server is started with: for a part of a split model, its
/// first part.
pub fn resolve_shard_name(filename: &str) -> (res: String)
    ensures
        res@ == first_shard_name(filename@),
{
    if !is_shard_file(filename) {
        return first_shard_name_from(filename, false, None);
    }
    let capture = pattern_capture(SHARD_PART_PATTERN, filename, 2);
    first_shard_name_from(filename, true, capture)
}

// ───────────── RPC endpoints ─────────────

/// One endpoint, trimmed and without its trailing `+` marks (multi-device marks).
pub open spec fn clean_endpoint(p: Seq<char>) -> Seq<char> {
    strip_trailing(trim(p), '+')
}

/// The endpoint list as passed to `--rpc`.
pub open spec fn clean_endpoints(s: Seq<char>) -> Seq<char> {
    join(split(s, ',').map_values(|p: Seq<char>| clean_endpoint(p)), ","@)
}

/// Cleans a comma-separated endpoint list: every entry trimmed, trailing `+`
/// marks removed, joined again with commas.
pub fn clean_rpc_endpoints(s: &str) -> (res: String)
    ensures
        res@ == clean_endpoints(s@),
{
    let cs = chars_of(s);
    let parts = split_exec(cs.as_slice(), ',');
    let ghost pv = views(parts@);
    let mut cleaned: Vec<Vec<char>> = Vec::new();
    let mut i: usize = 0;
    while i < parts.len()
        invariant
            i <= parts@.len(),
            pv == views(parts@),
            views(cleaned@) == pv.take(i as int).map_values(|p: Seq<char>| clean_endpoint(p)),
        decreases parts@.len() - i,
    {
        let t = crate::text::trim_vec(parts[i].as_slice());
        let e = strip_trailing_end(t.as_slice(), '+');
        let c = slice_sub(t.as_slice(), 0, e);
        proof {
            assert(c@ =~= t@.take(e as int));
        }
        let ghost before = views(cleaned@);
        cleaned.push(c);
        proof {
            assert(views(cleaned@) =~= before.push(clean_endpoint(pv[i as int])));
            assert(pv.take(i + 1).map_values(|p: Seq<char>| clean_endpoint(p)) =~= pv.take(
                i as int,
            ).map_values(|p: Seq<char>| clean_endpoint(p)).push(clean_endpoint(pv[i as int])));
        }
        i = i + 1;
    }
    proof {
        assert(pv.take(parts@.len() as int) =~= pv);
    }
    join_exec(&cleaned, ",")
}

/// The mark before a log line of each level in the log view.
pub open spec fn level_mark(level: LogLevel) -> Seq<char> {
    match level {
        LogLevel::Info => ""@,
        LogLevel::Warn => "⚠ "@,
        LogLevel::Error => "✖ "@,
    }
}

/// The log as the log view shows and copies it: each line with its level's
/// mark in front and a line break after it.
pub open spec fn log_text_of(entries: Seq<LogEntry>) -> Seq<char>
    decreases entries.len(),
{
    if entries.len() == 0 {
        Seq::empty()
    } else {
        log_text_of(entries.drop_last()) + level_mark(entries.last().level) + entries.last().text@
            + "\n"@
    }
}

/// The text of the log view (see `log_text_of`).
pub fn log_text(entries: &[LogEntry]) -> (res: String)
    ensures
        res@ == log_text_of(entries@),
{
    let mut s = String::new();
    let mut i: usize = 0;
    proof {
        assert(entries@.take(0) =~= Seq::<LogEntry>::empty());
    }
    while i < entries.len()
        invariant
            i <= entries@.len(),
            s@ == log_text_of(entries@.take(i as int)),
        decreases entries@.len() - i,
    {
        proof {
            assert(entries@.take(i + 1).drop_last() =~= entries@.take(i as int));
            assert(entries@.take(i + 1).last() == entries@[i as int]);
        }
        let ghost before = s@;
        match entries[i].level {
            LogLevel::Info => {
                proof {
                    reveal_strlit("");
                }
            },
            LogLevel::Warn => push_str(&mut s, "⚠ "),
            LogLevel::Error => push_str(&mut s, "✖ "),
        }
        push_str(&mut s, entries[i].text.as_str());
        push_str(&mut s, "\n");
        proof {
            let e = entries@[i as int];
            assert(s@ =~= before + level_mark(e.level) + e.text@ + "\n"@);
        }
        i = i + 1;
    }
    proof {
        assert(entries@.take(entries@.len() as int) =~= entries@);
    }
    s
}

/// How server output is classified. A line that does not start (after white
/// space) with a digit carries no timestamp marker. A line without a marker
/// that mentions a warning (`WARN` or `warn`) is a warning, even when it also
/// mentions an error; one that mentions an error (`ERROR` or `error`) and no
/// warning is an error; one that mentions neither is information. A marker,
/// where there is one, decides.
pub proof fn log_line_levels(line: Seq<char>)
    ensures
        trim_start(line).len() == 0 || !is_digit(trim_start(line)[0]) ==> marked_level(line) is None,
        marked_level(line) matches Some(l) ==> line_level(line) == l,
        marked_level(line) is None && (contains(line, "WARN"@) || contains(line, "warn"@))
            ==> line_level(line) == LogLevel::Warn,
        marked_level(line) is None && !(contains(line, "WARN"@) || contains(line, "warn"@)) && (
        contains(line, "ERROR"@) || contains(line, "error"@)) ==> line_level(line)
            == LogLevel::Error,
        marked_level(line) is None && !(contains(line, "WARN"@) || contains(line, "warn"@)) && !(
        contains(line, "ERROR"@) || contains(line, "error"@)) ==> line_level(line)
            == LogLevel::Info,
{
}

} // verus!
