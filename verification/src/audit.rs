//! Structured audit events and the tamper-evident audit hash chain.
//!
//! Every recorded entry carries the hash of its predecessor, so any edit of a
//! stored entry breaks the chain that [`AuditHashChain::verify_integrity`] checks.
use vstd::prelude::*;

use crate::digest::{hex_encode, hex_lower, lemma_hex_lower_len, sha256_digest, sha256_spec};
use crate::text::{
    char_is_whitespace, chars_of, decimal, push_char, push_str, to_owned_string, trim_bounds,
    trim_spec, u64_to_decimal,
};

verus! {

/// Broad category of audit event.
#[derive(Debug, Clone, Copy, PartialEq, Eq)]
pub enum AuditCategory {
    /// Credential / secret leak detection.
    LeakDetection,
    /// Security policy violation.
    PolicyViolation,
    /// Prompt injection attempt.
    InjectionAttempt,
    /// Shell command blocked.
    ShellSecurity,
    /// Path traversal or symlink escape.
    PathSecurity,
    /// Mount validation failure.
    MountSecurity,
    /// Plugin integrity check failure.
    PluginIntegrity,
    /// Dangerous tool call sequence detected.
    ToolChainAlert,
    /// Taint tracking: data-flow policy violation.
    TaintViolation,
}

/// Display name of an audit category.
pub open spec fn category_name(c: AuditCategory) -> Seq<char> {
    match c {
        AuditCategory::LeakDetection => "leak_detection"@,
        AuditCategory::PolicyViolation => "policy_violation"@,
        AuditCategory::InjectionAttempt => "injection_attempt"@,
        AuditCategory::ShellSecurity => "shell_security"@,
        AuditCategory::PathSecurity => "path_security"@,
        AuditCategory::MountSecurity => "mount_security"@,
        AuditCategory::PluginIntegrity => "plugin_integrity"@,
        AuditCategory::ToolChainAlert => "tool_chain_alert"@,
        AuditCategory::TaintViolation => "taint_violation"@,
    }
}

impl AuditCategory {
    /// The snake_case name used in logs.
    pub fn to_string(&self) -> (s: String)
        ensures
            s@ == category_name(*self),
    {
        match self {
            AuditCategory::LeakDetection => to_owned_string("leak_detection"),
            AuditCategory::PolicyViolation => to_owned_string("policy_violation"),
            AuditCategory::InjectionAttempt => to_owned_string("injection_attempt"),
            AuditCategory::ShellSecurity => to_owned_string("shell_security"),
            AuditCategory::PathSecurity => to_owned_string("path_security"),
            AuditCategory::MountSecurity => to_owned_string("mount_security"),
            AuditCategory::PluginIntegrity => to_owned_string("plugin_integrity"),
            AuditCategory::ToolChainAlert => to_owned_string("tool_chain_alert"),
            AuditCategory::TaintViolation => to_owned_string("taint_violation"),
        }
    }
}

/// Severity level for audit events.
#[derive(Debug, Clone, Copy, PartialEq, Eq)]
pub enum AuditSeverity {
    /// Informational — action was noted but not harmful.
    Info,
    /// Warning — action was sanitized or redacted.
    Warning,
    /// Critical — action was blocked entirely.
    Critical,
}

/// Display name of a severity.
pub open spec fn severity_name(s: AuditSeverity) -> Seq<char> {
    match s {
        AuditSeverity::Info => "info"@,
        AuditSeverity::Warning => "warning"@,
        AuditSeverity::Critical => "critical"@,
    }
}

impl AuditSeverity {
    /// The lower-case name used in logs.
    pub fn to_string(&self) -> (s: String)
        ensures
            s@ == severity_name(*self),
    {
        match self {
            AuditSeverity::Info => to_owned_string("info"),
            AuditSeverity::Warning => to_owned_string("warning"),
            AuditSeverity::Critical => to_owned_string("critical"),
        }
    }
}

/// Action type in the execution hash chain.
#[derive(Debug, Clone, Copy, PartialEq, Eq)]
pub enum AuditAction {
    ToolInvoke,
    ShellExec,
    NetworkAccess,
    AgentSpawn,
    AgentMessage,
    MemoryAccess,
    FileAccess,
    AuthAttempt,
    ConfigChange,
}

/// Display name of an action.
pub open spec fn action_name(a: AuditAction) -> Seq<char> {
    match a {
        AuditAction::ToolInvoke => "tool_invoke"@,
        AuditAction::ShellExec => "shell_exec"@,
        AuditAction::NetworkAccess => "network_access"@,
        AuditAction::AgentSpawn => "agent_spawn"@,
        AuditAction::AgentMessage => "agent_message"@,
        AuditAction::MemoryAccess => "memory_access"@,
        AuditAction::FileAccess => "file_access"@,
        AuditAction::AuthAttempt => "auth_attempt"@,
        AuditAction::ConfigChange => "config_change"@,
    }
}

impl AuditAction {
    /// The snake_case name used in the hash chain.
    pub fn to_string(&self) -> (s: String)
        ensures
            s@ == action_name(*self),
    {
        match self {
            AuditAction::ToolInvoke => to_owned_string("tool_invoke"),
            AuditAction::ShellExec => to_owned_string("shell_exec"),
            AuditAction::NetworkAccess => to_owned_string("network_access"),
            AuditAction::AgentSpawn => to_owned_string("agent_spawn"),
            AuditAction::AgentMessage => to_owned_string("agent_message"),
            AuditAction::MemoryAccess => to_owned_string("memory_access"),
            AuditAction::FileAccess => to_owned_string("file_access"),
            AuditAction::AuthAttempt => to_owned_string("auth_attempt"),
            AuditAction::ConfigChange => to_owned_string("config_change"),
        }
    }
}


/// Log level an audit event is emitted at.
#[derive(Debug, Clone, Copy, PartialEq, Eq)]
pub enum AuditLogLevel {
    Info,
    Warn,
    Error,
}

/// A structured audit event, ready to be emitted with `audit = true`.
#[derive(Debug, Clone, PartialEq, Eq)]
pub struct AuditLogRecord {
    pub level: AuditLogLevel,
    pub category: AuditCategory,
    pub severity: AuditSeverity,
    pub event_type: String,
    pub detail: String,
    pub blocked: bool,
}

/// Level for a severity: info for `Info`, warn for `Warning`, error for `Critical`.
pub open spec fn level_for(s: AuditSeverity) -> AuditLogLevel {
    match s {
        AuditSeverity::Info => AuditLogLevel::Info,
        AuditSeverity::Warning => AuditLogLevel::Warn,
        AuditSeverity::Critical => AuditLogLevel::Error,
    }
}

/// Builds the structured audit event for the given fields; the level follows
/// the severity (info / warn / error).
pub fn log_audit_event(
    category: AuditCategory,
    severity: AuditSeverity,
    event_type: &str,
    detail: &str,
    blocked: bool,
) -> (r: AuditLogRecord)
    ensures
        r.level == level_for(severity),
        r.category == category,
        r.severity == severity,
        r.event_type@ == event_type@,
        r.detail@ == detail@,
        r.blocked == blocked,
{
    let level = match severity {
        AuditSeverity::Info => AuditLogLevel::Info,
        AuditSeverity::Warning => AuditLogLevel::Warn,
        AuditSeverity::Critical => AuditLogLevel::Error,
    };
    AuditLogRecord {
        level,
        category,
        severity,
        event_type: to_owned_string(event_type),
        detail: to_owned_string(detail),
        blocked,
    }
}

/// One immutable chain entry.
#[derive(Debug, Clone, PartialEq, Eq)]
pub struct AuditEntry {
    pub seq: u64,
    pub timestamp: String,
    pub agent_id: String,
    pub action: AuditAction,
    pub detail: String,
    pub outcome: String,
    pub prev_hash: String,
    pub hash: String,
}

/// Mathematical form of an [`AuditEntry`].
pub struct EntryView {
    pub seq: u64,
    pub timestamp: Seq<char>,
    pub agent_id: Seq<char>,
    pub action: AuditAction,
    pub detail: Seq<char>,
    pub outcome: Seq<char>,
    pub prev_hash: Seq<char>,
    pub hash: Seq<char>,
}

impl View for AuditEntry {
    type V = EntryView;

    open spec fn view(&self) -> EntryView {
        EntryView {
            seq: self.seq,
            timestamp: self.timestamp@,
            agent_id: self.agent_id@,
            action: self.action,
            detail: self.detail@,
            outcome: self.outcome@,
            prev_hash: self.prev_hash@,
            hash: self.hash@,
        }
    }
}

/// The hash of the chain before any entry: 64 `'0'` characters.
pub open spec fn genesis() -> Seq<char> {
    Seq::new(64, |i: int| '0')
}

/// `"{seq}|{timestamp}|{agent_id}|{action}|{detail}|{outcome}|{prev_hash}"`.
pub open spec fn entry_payload(
    seq: u64,
    timestamp: Seq<char>,
    agent_id: Seq<char>,
    action: AuditAction,
    detail: Seq<char>,
    outcome: Seq<char>,
    prev_hash: Seq<char>,
) -> Seq<char> {
    decimal(seq as nat) + seq!['|'] + timestamp + seq!['|'] + agent_id + seq!['|'] + action_name(
        action,
    ) + seq!['|'] + detail + seq!['|'] + outcome + seq!['|'] + prev_hash
}

/// Lower-case hex SHA-256 of the UTF-8 encoded entry payload.
#[verifier::opaque]
pub open spec fn entry_hash(
    seq: u64,
    timestamp: Seq<char>,
    agent_id: Seq<char>,
    action: AuditAction,
    detail: Seq<char>,
    outcome: Seq<char>,
    prev_hash: Seq<char>,
) -> Seq<char> {
    hex_lower(
        sha256_spec(
            vstd::utf8::encode_utf8(
                entry_payload(seq, timestamp, agent_id, action, detail, outcome, prev_hash),
            ),
        ),
    )
}

/// Texts joined with `|` between each two of them.
pub open spec fn bar_joined(f: Seq<Seq<char>>) -> Seq<char>
    decreases f.len(),
{
    if f.len() == 0 {
        Seq::empty()
    } else if f.len() == 1 {
        f[0]
    } else {
        bar_joined(f.drop_last()) + seq!['|'] + f.last()
    }
}

/// The texts an entry's hash covers, in order: its sequence number, its
/// timestamp, agent, action, detail and outcome, and the previous hash.
pub open spec fn hashed_fields(e: EntryView, prev: Seq<char>) -> Seq<Seq<char>> {
    seq![decimal(e.seq as nat), e.timestamp, e.agent_id, action_name(e.action), e.detail, e.outcome, prev]
}

proof fn lemma_append_cancel(a: Seq<char>, b: Seq<char>, t: Seq<char>)
    requires
        a + t == b + t,
    ensures
        a == b,
{
    assert((a + t).len() == a.len() + t.len());
    assert((b + t).len() == b.len() + t.len());
    assert(a.len() == b.len());
    assert(a =~= (a + t).take(a.len() as int));
    assert(b =~= (b + t).take(b.len() as int));
}

proof fn lemma_prefix_cancel(p: Seq<char>, a: Seq<char>, b: Seq<char>)
    requires
        p + a == p + b,
    ensures
        a == b,
{
    assert(a =~= (p + a).skip(p.len() as int));
    assert(b =~= (p + b).skip(p.len() as int));
}

/// Changing any one of the joined texts changes the joined text.
pub proof fn lemma_bar_joined_one_field(f: Seq<Seq<char>>, k: int, v: Seq<char>)
    requires
        0 <= k < f.len(),
        f[k] != v,
    ensures
        bar_joined(f) != bar_joined(f.update(k, v)),
    decreases f.len(),
{
    let g = f.update(k, v);
    if f.len() == 1 {
        assert(bar_joined(f) == f[0]);
        assert(bar_joined(g) == g[0]);
    } else if k == f.len() - 1 {
        assert(f.drop_last() =~= g.drop_last());
        let pre = bar_joined(f.drop_last()) + seq!['|'];
        assert(bar_joined(f) == pre + f.last());
        assert(bar_joined(g) == pre + g.last());
        if bar_joined(f) == bar_joined(g) {
            lemma_prefix_cancel(pre, f.last(), g.last());
        }
    } else {
        lemma_bar_joined_one_field(f.drop_last(), k, v);
        assert(f.drop_last().update(k, v) =~= g.drop_last());
        let t = seq!['|'] + f.last();
        assert(bar_joined(f) =~= bar_joined(f.drop_last()) + t);
        assert(bar_joined(g) =~= bar_joined(g.drop_last()) + t);
        if bar_joined(f) == bar_joined(g) {
            lemma_append_cancel(bar_joined(f.drop_last()), bar_joined(g.drop_last()), t);
        }
    }
}

/// The hash an entry must carry is the lower-case hex SHA-256 of all its
/// hashed fields joined by `|`; so two entries with the same previous hash
/// that differ in any one stored field (sequence number, timestamp, agent,
/// action, detail or outcome) have different hash inputs.
pub proof fn lemma_entry_hash_covers_every_field(e1: EntryView, e2: EntryView, prev: Seq<char>, k: int)
    requires
        0 <= k < 6,
        hashed_fields(e1, prev)[k] != hashed_fields(e2, prev)[k],
        forall|j: int| 0 <= j < 7 && j != k ==> hashed_fields(e1, prev)[j] == hashed_fields(e2, prev)[j],
    ensures
        expected_hash(e1, prev) == hex_lower(sha256_spec(vstd::utf8::encode_utf8(bar_joined(hashed_fields(e1, prev))))),
        expected_hash(e2, prev) == hex_lower(sha256_spec(vstd::utf8::encode_utf8(bar_joined(hashed_fields(e2, prev))))),
        bar_joined(hashed_fields(e1, prev)) != bar_joined(hashed_fields(e2, prev)),
{
    lemma_hash_input_joined(e1, prev);
    lemma_hash_input_joined(e2, prev);
    let f1 = hashed_fields(e1, prev);
    let f2 = hashed_fields(e2, prev);
    assert(f1.update(k, f2[k]) =~= f2);
    lemma_bar_joined_one_field(f1, k, f2[k]);
}

proof fn lemma_hash_input_joined(e: EntryView, prev: Seq<char>)
    ensures
        expected_hash(e, prev) == hex_lower(sha256_spec(vstd::utf8::encode_utf8(bar_joined(hashed_fields(e, prev))))),
{
    reveal(entry_hash);
    let f = hashed_fields(e, prev);
    let f1 = f.take(1);
    let f2 = f.take(2);
    let f3 = f.take(3);
    let f4 = f.take(4);
    let f5 = f.take(5);
    let f6 = f.take(6);
    assert(f2.drop_last() =~= f1);
    assert(f3.drop_last() =~= f2);
    assert(f4.drop_last() =~= f3);
    assert(f5.drop_last() =~= f4);
    assert(f6.drop_last() =~= f5);
    assert(f.drop_last() =~= f6);
    assert(bar_joined(f1) == f[0]);
    assert(bar_joined(f2) == f[0] + seq!['|'] + f[1]);
    assert(bar_joined(f3) == bar_joined(f2) + seq!['|'] + f[2]);
    assert(bar_joined(f4) == bar_joined(f3) + seq!['|'] + f[3]);
    assert(bar_joined(f5) == bar_joined(f4) + seq!['|'] + f[4]);
    assert(bar_joined(f6) == bar_joined(f5) + seq!['|'] + f[5]);
    assert(bar_joined(f) == bar_joined(f6) + seq!['|'] + f[6]);
    assert(bar_joined(f) =~= entry_payload(e.seq, e.timestamp, e.agent_id, e.action, e.detail, e.outcome, prev));
}

/// The hash an entry must carry, given the hash of its predecessor.
pub open spec fn expected_hash(e: EntryView, prev: Seq<char>) -> Seq<char> {
    entry_hash(e.seq, e.timestamp, e.agent_id, e.action, e.detail, e.outcome, prev)
}

/// Hash of the entry before index `i` (genesis for the first one).
pub open spec fn prev_of(entries: Seq<EntryView>, i: int) -> Seq<char> {
    if i == 0 {
        genesis()
    } else {
        entries[i - 1].hash
    }
}

/// Hash of the last entry (genesis for an empty chain).
pub open spec fn last_hash(entries: Seq<EntryView>) -> Seq<char> {
    prev_of(entries, entries.len() as int)
}

/// A chain is intact when every entry links to its predecessor's hash, every
/// stored hash is the hash of its entry, and the tip is the last hash.
pub open spec fn chain_valid(entries: Seq<EntryView>, tip: Seq<char>) -> bool {
    &&& forall|i: int|
        0 <= i < entries.len() ==> #[trigger] entries[i].prev_hash == prev_of(entries, i)
    &&& forall|i: int|
        0 <= i < entries.len() ==> #[trigger] entries[i].hash == expected_hash(
            entries[i],
            prev_of(entries, i),
        )
    &&& tip == last_hash(entries)
}

/// `"chain broken at seq {seq}: prev hash mismatch"`.
pub open spec fn prev_mismatch_msg(seq: u64) -> Seq<char> {
    "chain broken at seq "@ + decimal(seq as nat) + ": prev hash mismatch"@
}

/// `"chain broken at seq {seq}: hash mismatch"`.
pub open spec fn hash_mismatch_msg(seq: u64) -> Seq<char> {
    "chain broken at seq "@ + decimal(seq as nat) + ": hash mismatch"@
}

/// `"chain broken: tip does not match final entry hash"`.
pub open spec fn tip_mismatch_msg() -> Seq<char> {
    "chain broken: tip does not match final entry hash"@
}

/// Result of checking entries `i..` when entry `i` must link to `expected_prev`.
pub open spec fn scan_chain(
    entries: Seq<EntryView>,
    i: nat,
    expected_prev: Seq<char>,
    tip: Seq<char>,
) -> Result<(), Seq<char>>
    decreases entries.len() - i,
{
    if i >= entries.len() {
        if tip == expected_prev {
            Ok(())
        } else {
            Err(tip_mismatch_msg())
        }
    } else {
        let e = entries[i as int];
        if e.prev_hash != expected_prev {
            Err(prev_mismatch_msg(e.seq))
        } else if e.hash != expected_hash(e, expected_prev) {
            Err(hash_mismatch_msg(e.seq))
        } else {
            scan_chain(entries, i + 1, e.hash, tip)
        }
    }
}

/// The verdict of an integrity check: the first broken link, in chain order.
pub open spec fn verify_spec(entries: Seq<EntryView>, tip: Seq<char>) -> Result<(), Seq<char>> {
    scan_chain(entries, 0, genesis(), tip)
}

/// Mathematical state of an [`AuditHashChain`].
pub struct ChainState {
    pub entries: Seq<EntryView>,
    pub tip: Seq<char>,
}

/// `value` trimmed, with line breaks turned into spaces.
pub open spec fn flatten_line_breaks(s: Seq<char>) -> Seq<char> {
    s.map_values(|c: char| if c == '\n' || c == '\r' { ' ' } else { c })
}

/// `value` trimmed, line breaks replaced by spaces, cut to `max_len` characters.
pub open spec fn sanitized(value: Seq<char>, max_len: nat) -> Seq<char> {
    let n = flatten_line_breaks(trim_spec(value));
    if n.len() <= max_len {
        n
    } else {
        n.take(max_len as int)
    }
}

/// The entry that recording `(agent_id, action, detail, outcome)` at `timestamp` appends.
pub open spec fn recorded_entry(
    st: ChainState,
    timestamp: Seq<char>,
    agent_id: Seq<char>,
    action: AuditAction,
    detail: Seq<char>,
    outcome: Seq<char>,
) -> EntryView {
    let seq = (st.entries.len() + 1) as u64;
    let a = sanitized(agent_id, 120);
    let d = sanitized(detail, 512);
    let o = sanitized(outcome, 120);
    EntryView {
        seq,
        timestamp,
        agent_id: a,
        action,
        detail: d,
        outcome: o,
        prev_hash: st.tip,
        hash: entry_hash(seq, timestamp, a, action, d, o, st.tip),
    }
}

/// In-memory, append-only hash chain of audit entries.
#[derive(Debug)]
pub struct AuditHashChain {
    entries: Vec<AuditEntry>,
    tip: String,
}

impl View for AuditHashChain {
    type V = ChainState;

    closed spec fn view(&self) -> ChainState {
        ChainState { entries: self.entries@.map_values(|e: AuditEntry| e@), tip: self.tip@ }
    }
}

/// The genesis hash: 64 `'0'` characters.
pub fn genesis_hash() -> (s: String)
    ensures
        s@ == genesis(),
{
    let mut s = String::new();
    let mut i: usize = 0;
    while i < 64
        invariant
            i <= 64,
            s@ == Seq::new(i as nat, |j: int| '0'),
        decreases 64 - i,
    {
        push_char(&mut s, '0');
        assert(s@ =~= Seq::new((i + 1) as nat, |j: int| '0'));
        i += 1;
    }
    s
}

/// `value` trimmed, with `\n` and `\r` replaced by spaces, cut to `max_len` characters.
pub fn sanitize_text(value: &str, max_len: usize) -> (s: String)
    ensures
        s@ == sanitized(value@, max_len as nat),
{
    let cs = chars_of(value);
    let (a, b) = trim_bounds(cs.as_slice());
    let ghost n = flatten_line_breaks(trim_spec(value@));
    let mut s = String::new();
    let mut i: usize = a;
    let mut count: usize = 0;
    while i < b && count < max_len
        invariant
            a <= i <= b <= cs.len(),
            count == i - a,
            count <= max_len,
            cs@.subrange(a as int, b as int) == trim_spec(value@),
            n == flatten_line_breaks(trim_spec(value@)),
            s@ == n.take(count as int),
        decreases b - i,
    {
        let c = cs[i];
        let c2 = if c == '\n' || c == '\r' { ' ' } else { c };
        push_char(&mut s, c2);
        assert(s@ =~= n.take(count + 1));
        i += 1;
        count += 1;
    }
    proof {
        if n.len() <= max_len {
            assert(n.take(count as int) =~= n);
        }
    }
    s
}

/// Lower-case hex SHA-256 of the entry payload.
pub fn compute_entry_hash(
    seq: u64,
    timestamp: &str,
    agent_id: &str,
    action: AuditAction,
    detail: &str,
    outcome: &str,
    prev_hash: &str,
) -> (h: String)
    ensures
        h@ == entry_hash(seq, timestamp@, agent_id@, action, detail@, outcome@, prev_hash@),
{
    let mut p = u64_to_decimal(seq);
    push_char(&mut p, '|');
    push_str(&mut p, timestamp);
    push_char(&mut p, '|');
    push_str(&mut p, agent_id);
    push_char(&mut p, '|');
    let a = action.to_string();
    push_str(&mut p, a.as_str());
    push_char(&mut p, '|');
    push_str(&mut p, detail);
    push_char(&mut p, '|');
    push_str(&mut p, outcome);
    push_char(&mut p, '|');
    push_str(&mut p, prev_hash);
    assert(p@ =~= entry_payload(seq, timestamp@, agent_id@, action, detail@, outcome@, prev_hash@));
    let digest = sha256_digest(p.as_str().as_bytes());
    proof {
        reveal(entry_hash);
    }
    hex_encode(digest.as_slice())
}

/// The current UTC time in RFC 3339 form (`chrono::Utc::now().to_rfc3339()`).
/// Nothing is claimed of the text: it depends on the clock.
#[verifier::external_body]
pub(crate) fn utc_now_rfc3339() -> String {
    chrono::Utc::now().to_rfc3339()
}

proof fn lemma_scan_ok(entries: Seq<EntryView>, i: nat, tip: Seq<char>)
    requires
        i <= entries.len(),
        chain_valid(entries, tip),
    ensures
        scan_chain(entries, i, prev_of(entries, i as int), tip) is Ok,
    decreases entries.len() - i,
{
    if i < entries.len() {
        assert(entries[i as int].prev_hash == prev_of(entries, i as int));
        assert(entries[i as int].hash == expected_hash(entries[i as int], prev_of(entries, i as int)));
        assert(prev_of(entries, (i + 1) as int) == entries[i as int].hash);
        lemma_scan_ok(entries, i + 1, tip);
    }
}

proof fn lemma_scan_err(entries: Seq<EntryView>, i: nat, tip: Seq<char>)
    requires
        i <= entries.len(),
        forall|j: int| 0 <= j < i ==> #[trigger] entries[j].prev_hash == prev_of(entries, j),
        forall|j: int|
            0 <= j < i ==> #[trigger] entries[j].hash == expected_hash(entries[j], prev_of(entries, j)),
        scan_chain(entries, i, prev_of(entries, i as int), tip) is Ok,
    ensures
        chain_valid(entries, tip),
    decreases entries.len() - i,
{
    if i < entries.len() {
        assert(prev_of(entries, (i + 1) as int) == entries[i as int].hash);
        lemma_scan_err(entries, i + 1, tip);
    }
}

/// The integrity check succeeds exactly on intact chains.
pub proof fn lemma_verify_iff_valid(entries: Seq<EntryView>, tip: Seq<char>)
    ensures
        verify_spec(entries, tip) is Ok <==> chain_valid(entries, tip),
{
    if chain_valid(entries, tip) {
        lemma_scan_ok(entries, 0, tip);
    }
    if verify_spec(entries, tip) is Ok {
        assert(prev_of(entries, 0) == genesis());
        lemma_scan_err(entries, 0, tip);
    }
}

/// Recording an entry into an intact chain leaves an intact chain whose tip is
/// the new entry's hash, with the new entry numbered one past the old length.
pub proof fn lemma_record_keeps_chain_valid(
    st: ChainState,
    timestamp: Seq<char>,
    agent_id: Seq<char>,
    action: AuditAction,
    detail: Seq<char>,
    outcome: Seq<char>,
)
    requires
        chain_valid(st.entries, st.tip),
    ensures
        ({
            let e = recorded_entry(st, timestamp, agent_id, action, detail, outcome);
            &&& chain_valid(st.entries.push(e), e.hash)
            &&& e.prev_hash == last_hash(st.entries)
        }),
{
    let e = recorded_entry(st, timestamp, agent_id, action, detail, outcome);
    let n = st.entries.push(e);
    assert forall|i: int| 0 <= i < n.len() implies #[trigger] n[i].prev_hash == prev_of(n, i) by {
        if i < st.entries.len() {
            assert(n[i] == st.entries[i]);
            if i > 0 {
                assert(n[i - 1] == st.entries[i - 1]);
            }
        } else if i > 0 {
            assert(n[i - 1] == st.entries[i - 1]);
        }
    }
    assert forall|i: int|
        0 <= i < n.len() implies #[trigger] n[i].hash == expected_hash(n[i], prev_of(n, i)) by {
        if i < st.entries.len() {
            assert(n[i] == st.entries[i]);
            if i > 0 {
                assert(n[i - 1] == st.entries[i - 1]);
            }
        } else if i > 0 {
            assert(n[i - 1] == st.entries[i - 1]);
        }
    }
}

/// The chain after `st` records one entry with these fields.
pub open spec fn after_record(
    st: ChainState,
    timestamp: Seq<char>,
    agent_id: Seq<char>,
    action: AuditAction,
    detail: Seq<char>,
    outcome: Seq<char>,
) -> ChainState {
    let e = recorded_entry(st, timestamp, agent_id, action, detail, outcome);
    ChainState { entries: st.entries.push(e), tip: e.hash }
}

/// Two entries recorded one after the other are linked: the second is
/// numbered one past the first and carries the first's hash as its previous
/// hash, and the tip moves to the second's hash.
pub proof fn lemma_consecutive_records_link(
    st: ChainState,
    t1: Seq<char>,
    a1: Seq<char>,
    x1: AuditAction,
    d1: Seq<char>,
    o1: Seq<char>,
    t2: Seq<char>,
    a2: Seq<char>,
    x2: AuditAction,
    d2: Seq<char>,
    o2: Seq<char>,
)
    requires
        st.entries.len() + 2 <= u64::MAX,
    ensures
        ({
            let e1 = recorded_entry(st, t1, a1, x1, d1, o1);
            let st1 = after_record(st, t1, a1, x1, d1, o1);
            let e2 = recorded_entry(st1, t2, a2, x2, d2, o2);
            &&& e1.prev_hash == st.tip
            &&& e2.seq == e1.seq + 1
            &&& e2.prev_hash == e1.hash
            &&& after_record(st1, t2, a2, x2, d2, o2).tip == e2.hash
        }),
{
}

/// The fields of one recorded event: time stamp, agent, action, detail, outcome.
pub type AuditEvent = (Seq<char>, Seq<char>, AuditAction, Seq<char>, Seq<char>);

/// The chain after `st` records `events`, in order.
pub open spec fn record_all(st: ChainState, events: Seq<AuditEvent>) -> ChainState
    decreases events.len(),
{
    if events.len() == 0 {
        st
    } else {
        let ev = events.last();
        after_record(record_all(st, events.drop_last()), ev.0, ev.1, ev.2, ev.3, ev.4)
    }
}

/// The empty chain a new chain starts as.
pub open spec fn fresh_chain() -> ChainState {
    ChainState { entries: Seq::empty(), tip: genesis() }
}

/// A chain changed only by recording passes its integrity check: from a new
/// chain, any sequence of recorded events leaves an intact chain with one
/// entry per event.
pub proof fn lemma_recorded_chain_verifies(events: Seq<AuditEvent>)
    ensures
        chain_valid(record_all(fresh_chain(), events).entries, record_all(fresh_chain(), events).tip),
        record_all(fresh_chain(), events).entries.len() == events.len(),
        verify_spec(record_all(fresh_chain(), events).entries, record_all(fresh_chain(), events).tip) is Ok,
    decreases events.len(),
{
    if events.len() > 0 {
        lemma_recorded_chain_verifies(events.drop_last());
        let prev = record_all(fresh_chain(), events.drop_last());
        let ev = events.last();
        lemma_record_keeps_chain_valid(prev, ev.0, ev.1, ev.2, ev.3, ev.4);
    }
    lemma_verify_iff_valid(record_all(fresh_chain(), events).entries, record_all(fresh_chain(), events).tip);
}

impl AuditEntry {
    /// A field-by-field copy of this entry.
    pub fn duplicate(&self) -> (r: AuditEntry)
        ensures
            r@ == self@,
    {
        AuditEntry {
            seq: self.seq,
            timestamp: self.timestamp.clone(),
            agent_id: self.agent_id.clone(),
            action: self.action,
            detail: self.detail.clone(),
            outcome: self.outcome.clone(),
            prev_hash: self.prev_hash.clone(),
            hash: self.hash.clone(),
        }
    }
}

impl AuditHashChain {
    /// An empty chain whose tip is the genesis hash.
    pub fn new() -> (c: Self)
        ensures
            c@.entries == Seq::<EntryView>::empty(),
            c@.tip == genesis(),
            chain_valid(c@.entries, c@.tip),
    {
        let c = AuditHashChain { entries: Vec::new(), tip: genesis_hash() };
        assert(c@.entries =~= Seq::<EntryView>::empty());
        c
    }

    /// A chain made of stored entries and a stored tip, such as one read back
    /// from disk; nothing is checked until `verify_integrity`.
    pub fn from_parts(entries: Vec<AuditEntry>, tip: String) -> (c: Self)
        ensures
            c@.entries == entries@.map_values(|e: AuditEntry| e@),
            c@.tip == tip@,
    {
        AuditHashChain { entries, tip }
    }

    /// Appends an entry stamped with the current time and returns it.
    ///
    /// The text fields are sanitized (trimmed, line breaks flattened, cut to
    /// 120/512/120 characters); the entry links to the previous tip and the
    /// tip moves to the new entry's hash.
    pub fn record(&mut self, agent_id: &str, action: AuditAction, detail: &str, outcome: &str) -> (e: AuditEntry)
        requires
            old(self)@.entries.len() < u64::MAX,
        ensures
            e@ == recorded_entry(old(self)@, e@.timestamp, agent_id@, action, detail@, outcome@),
            final(self)@.entries == old(self)@.entries.push(e@),
            final(self)@.tip == e@.hash,
            chain_valid(old(self)@.entries, old(self)@.tip) ==> chain_valid(
                final(self)@.entries,
                final(self)@.tip,
            ),
    {
        let timestamp = utc_now_rfc3339();
        self.record_at(timestamp, agent_id, action, detail, outcome)
    }

    /// Appends an entry stamped with the given `timestamp` and returns it.
    pub fn record_at(
        &mut self,
        timestamp: String,
        agent_id: &str,
        action: AuditAction,
        detail: &str,
        outcome: &str,
    ) -> (e: AuditEntry)
        requires
            old(self)@.entries.len() < u64::MAX,
        ensures
            e@ == recorded_entry(old(self)@, timestamp@, agent_id@, action, detail@, outcome@),
            final(self)@.entries == old(self)@.entries.push(e@),
            final(self)@.tip == e@.hash,
            chain_valid(old(self)@.entries, old(self)@.tip) ==> chain_valid(
                final(self)@.entries,
                final(self)@.tip,
            ),
    {
        let ghost st = self@;
        let seq = self.entries.len() as u64 + 1;
        let agent_id = sanitize_text(agent_id, 120);
        let detail = sanitize_text(detail, 512);
        let outcome = sanitize_text(outcome, 120);
        let prev_hash = self.tip.clone();
        let hash = compute_entry_hash(
            seq,
            timestamp.as_str(),
            agent_id.as_str(),
            action,
            detail.as_str(),
            outcome.as_str(),
            prev_hash.as_str(),
        );
        let entry = AuditEntry {
            seq,
            timestamp,
            agent_id,
            action,
            detail,
            outcome,
            prev_hash,
            hash: hash.clone(),
        };
        self.tip = hash;
        self.entries.push(entry.duplicate());
        proof {
            assert(self@.entries =~= st.entries.push(entry@));
            if chain_valid(st.entries, st.tip) {
                lemma_record_keeps_chain_valid(st, entry@.timestamp, agent_id@, action, detail@, outcome@);
            }
        }
        entry
    }

    /// Checks every link of the chain; the error names the first broken entry.
    pub fn verify_integrity(&self) -> (r: Result<(), String>)
        ensures
            match r {
                Ok(()) => verify_spec(self@.entries, self@.tip) is Ok,
                Err(m) => verify_spec(self@.entries, self@.tip) == Err::<(), Seq<char>>(m@),
            },
            r is Ok <==> chain_valid(self@.entries, self@.tip),
    {
        proof {
            lemma_verify_iff_valid(self@.entries, self@.tip);
        }
        let ghost ents = self@.entries;
        let mut expected_prev = genesis_hash();
        let mut i: usize = 0;
        while i < self.entries.len()
            invariant
                ents == self@.entries,
                i <= ents.len(),
                verify_spec(ents, self@.tip) is Ok <==> chain_valid(ents, self@.tip),
                verify_spec(ents, self@.tip) == scan_chain(ents, i as nat, expected_prev@, self@.tip),
            decreases ents.len() - i,
        {
            let entry = &self.entries[i];
            assert(ents[i as int] == entry@);
            if !str_eq_string(&entry.prev_hash, &expected_prev) {
                let mut m = to_owned_string("chain broken at seq ");
                let d = u64_to_decimal(entry.seq);
                push_str(&mut m, d.as_str());
                push_str(&mut m, ": prev hash mismatch");
                return Err(m);
            }
            let expected_hash = compute_entry_hash(
                entry.seq,
                entry.timestamp.as_str(),
                entry.agent_id.as_str(),
                entry.action,
                entry.detail.as_str(),
                entry.outcome.as_str(),
                expected_prev.as_str(),
            );
            if !str_eq_string(&entry.hash, &expected_hash) {
                let mut m = to_owned_string("chain broken at seq ");
                let d = u64_to_decimal(entry.seq);
                push_str(&mut m, d.as_str());
                push_str(&mut m, ": hash mismatch");
                return Err(m);
            }
            expected_prev = entry.hash.clone();
            i += 1;
        }
        if !str_eq_string(&self.tip, &expected_prev) {
            return Err(to_owned_string("chain broken: tip does not match final entry hash"));
        }
        Ok(())
    }

    /// The `n` most recent entries, oldest first.
    pub fn recent(&self, n: usize) -> (r: Vec<AuditEntry>)
        ensures
            r@.map_values(|e: AuditEntry| e@) == self@.entries.skip(
                self@.entries.len() - if n as nat <= self@.entries.len() { n as nat } else { self@.entries.len() },
            ),
    {
        let len = self.entries.len();
        let start = if n < len { len - n } else { 0 };
        let mut r: Vec<AuditEntry> = Vec::new();
        let mut i = start;
        while i < len
            invariant
                start <= i <= len,
                len == self.entries@.len(),
                r@.len() == i - start,
                forall|j: int| 0 <= j < r@.len() ==> #[trigger] r@[j]@ == self.entries@[start + j]@,
            decreases len - i,
        {
            let e = self.entries[i].duplicate();
            r.push(e);
            i += 1;
        }
        assert(r@.map_values(|e: AuditEntry| e@) =~= self@.entries.skip(start as int));
        r
    }

    /// The hash of the newest entry (the genesis hash while the chain is empty).
    pub fn tip_hash(&self) -> (s: String)
        ensures
            s@ == self@.tip,
    {
        self.tip.clone()
    }
}

/// Equality of two owned strings.
fn str_eq_string(a: &String, b: &String) -> (r: bool)
    ensures
        r == (a@ == b@),
{
    crate::text::str_eq(a.as_str(), b.as_str())
}

/// Appends a new event to `chain`, stamped with the current time.
pub fn record_audit_chain_event(
    chain: &mut AuditHashChain,
    agent_id: &str,
    action: AuditAction,
    detail: &str,
    outcome: &str,
) -> (e: AuditEntry)
    requires
        old(chain)@.entries.len() < u64::MAX,
    ensures
        e@ == recorded_entry(old(chain)@, e@.timestamp, agent_id@, action, detail@, outcome@),
        final(chain)@.entries == old(chain)@.entries.push(e@),
        final(chain)@.tip == e@.hash,
        chain_valid(old(chain)@.entries, old(chain)@.tip) ==> chain_valid(
            final(chain)@.entries,
            final(chain)@.tip,
        ),
{
    chain.record(agent_id, action, detail, outcome)
}

/// Verifies the integrity of every entry of `chain`.
pub fn verify_audit_chain_integrity(chain: &AuditHashChain) -> (r: Result<(), String>)
    ensures
        r is Ok <==> chain_valid(chain@.entries, chain@.tip),
        match r {
            Ok(()) => true,
            Err(m) => verify_spec(chain@.entries, chain@.tip) == Err::<(), Seq<char>>(m@),
        },
{
    chain.verify_integrity()
}

/// The `n` most recent entries of `chain`.
pub fn recent_audit_entries(chain: &AuditHashChain, n: usize) -> (r: Vec<AuditEntry>)
    ensures
        r@.map_values(|e: AuditEntry| e@) == chain@.entries.skip(
            chain@.entries.len() - if n as nat <= chain@.entries.len() { n as nat } else { chain@.entries.len() },
        ),
{
    chain.recent(n)
}

/// The current tip hash of `chain`.
pub fn audit_tip_hash(chain: &AuditHashChain) -> (s: String)
    ensures
        s@ == chain@.tip,
{
    chain.tip_hash()
}

} // verus!
