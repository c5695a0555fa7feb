//! Inbound prompt-injection scanning: what happens to a flagged message.
use vstd::prelude::*;

use crate::audit::{log_audit_event, AuditCategory, AuditLogRecord, AuditSeverity, level_for};
use crate::config::Config;
use crate::error::ZeptoError;
use crate::text::{push_str, str_eq, to_owned_string};

verus! {

/// Scans inbound messages for prompt injection: untrusted webhook messages are
/// blocked, other channels get a warning and continue.
#[derive(Debug)]
pub struct InjectionScanMiddleware {
    enabled: bool,
}

/// What becomes of a scanned message.
#[derive(Debug)]
pub enum InjectionVerdict {
    /// The message goes on unchanged.
    Proceed,
    /// The message goes on; the audit event records the warning.
    Warned(AuditLogRecord),
    /// The message is rejected with the error; the audit event records the block.
    Blocked(AuditLogRecord, ZeptoError),
}

/// The audit detail naming the channel and the sender.
pub open spec fn injection_detail(channel: Seq<char>, sender: Seq<char>) -> Seq<char> {
    "Channel: "@ + channel + ", sender: "@ + sender
}

/// The error a blocked message is answered with.
pub open spec fn injection_rejection() -> Seq<char> {
    "Message rejected: potential prompt injection detected"@
}

/// `r` is the audit event for an injection on `channel` from `sender`, at
/// `severity`, named `event_type`, marked blocked or not.
pub open spec fn is_injection_audit(
    r: AuditLogRecord,
    channel: Seq<char>,
    sender: Seq<char>,
    severity: AuditSeverity,
    event_type: Seq<char>,
    blocked: bool,
) -> bool {
    &&& r.level == level_for(severity)
    &&& r.category == AuditCategory::InjectionAttempt
    &&& r.severity == severity
    &&& r.event_type@ == event_type
    &&& r.detail@ == injection_detail(channel, sender)
    &&& r.blocked == blocked
}

impl InjectionScanMiddleware {
    /// Whether scanning is on.
    pub closed spec fn spec_enabled(&self) -> bool {
        self.enabled
    }

    /// A scanner that is on or off.
    pub fn new(enabled: bool) -> (m: Self)
        ensures
            m.spec_enabled() == enabled,
    {
        InjectionScanMiddleware { enabled }
    }

    /// A scanner that is on when both the safety layer and its injection check are.
    pub fn from_config(config: &Config) -> (m: Self)
        ensures
            m.spec_enabled() == (config.safety.enabled && config.safety.injection_check_enabled),
    {
        InjectionScanMiddleware { enabled: config.safety.enabled && config.safety.injection_check_enabled }
    }

    /// The middleware's name.
    pub fn name(&self) -> (s: &'static str)
        ensures
            s@ == "injection_scan"@,
    {
        "injection_scan"
    }

    /// What becomes of an inbound message on `channel` from `sender_id`, given
    /// whether the scanner flagged it (`flagged`).
    pub fn verdict(&self, flagged: bool, channel: &str, sender_id: &str) -> (v: InjectionVerdict)
        ensures
            !(self.spec_enabled() && flagged) ==> v is Proceed,
            self.spec_enabled() && flagged && channel@ == "webhook"@ ==> (v matches InjectionVerdict::Blocked(
                r,
                ZeptoError::Tool(m),
            ) && m@ == injection_rejection() && is_injection_audit(
                r,
                channel@,
                sender_id@,
                AuditSeverity::Critical,
                "inbound_injection_blocked"@,
                true,
            )),
            self.spec_enabled() && flagged && channel@ != "webhook"@ ==> (v matches InjectionVerdict::Warned(r)
                && is_injection_audit(
                r,
                channel@,
                sender_id@,
                AuditSeverity::Warning,
                "inbound_injection_warned"@,
                false,
            )),
    {
        if !(self.enabled && flagged) {
            return InjectionVerdict::Proceed;
        }
        let mut detail = to_owned_string("Channel: ");
        push_str(&mut detail, channel);
        push_str(&mut detail, ", sender: ");
        push_str(&mut detail, sender_id);
        if str_eq(channel, "webhook") {
            let r = log_audit_event(
                AuditCategory::InjectionAttempt,
                AuditSeverity::Critical,
                "inbound_injection_blocked",
                detail.as_str(),
                true,
            );
            InjectionVerdict::Blocked(
                r,
                ZeptoError::Tool(to_owned_string("Message rejected: potential prompt injection detected")),
            )
        } else {
            let r = log_audit_event(
                AuditCategory::InjectionAttempt,
                AuditSeverity::Warning,
                "inbound_injection_warned",
                detail.as_str(),
                false,
            );
            InjectionVerdict::Warned(r)
        }
    }
}

} // verus!
