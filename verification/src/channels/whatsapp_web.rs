//! WhatsApp Web channel helpers.
use vstd::prelude::*;

use crate::channels::{allowed_by, BaseChannelConfig, OutboundMessage};
use crate::text::{
    path_join,
    chars_of, find_char, opt_str_view, find_from, is_prefix, push_char, push_str, starts_with_chars,
    string_from_char_range, to_owned_string,
};

verus! {

/// Base reconnection delay in milliseconds.
pub const BACKOFF_BASE_MS: u64 = 2_000;

/// Upper bound of the reconnection delay in milliseconds.
pub const BACKOFF_MAX_MS: u64 = 120_000;

/// `2^attempt` as an unbounded integer.
pub open spec fn pow2(attempt: nat) -> nat
    decreases attempt,
{
    if attempt == 0 { 1 } else { 2 * pow2((attempt - 1) as nat) }
}

/// Reconnection delay in milliseconds: `2000 * 2^attempt`, capped at 120 s.
pub open spec fn backoff_millis(attempt: u32) -> int {
    let raw = BACKOFF_BASE_MS * pow2(attempt as nat);
    if raw > BACKOFF_MAX_MS { BACKOFF_MAX_MS as int } else { raw as int }
}

/// Exponential back-off in milliseconds for reconnection attempt `attempt`.
pub fn backoff_delay_millis(attempt: u32) -> (ms: u64)
    ensures
        ms == backoff_millis(attempt),
{
    let mut k: u32 = 0;
    let mut raw: u64 = BACKOFF_BASE_MS;
    while k < attempt && raw <= BACKOFF_MAX_MS
        invariant
            k <= attempt,
            raw == BACKOFF_BASE_MS * pow2(k as nat),
        decreases attempt - k,
    {
        raw = raw * 2;
        k = k + 1;
    }
    if raw > BACKOFF_MAX_MS {
        proof { lemma_pow2_mono(k as nat, attempt as nat); }
        BACKOFF_MAX_MS
    } else {
        raw
    }
}

proof fn lemma_pow2_mono(a: nat, b: nat)
    requires
        a <= b,
    ensures
        pow2(a) <= pow2(b),
    decreases b - a,
{
    if a < b {
        lemma_pow2_mono(a, (b - 1) as nat);
        lemma_pow2_pos((b - 1) as nat);
    }
}

proof fn lemma_pow2_pos(a: nat)
    ensures
        pow2(a) >= 1,
    decreases a,
{
    if a > 0 {
        lemma_pow2_pos((a - 1) as nat);
    }
}


/// The duration of `ms` milliseconds.
pub uninterp spec fn millis_duration(ms: u64) -> std::time::Duration;

/// `Duration::from_millis`: the result is named `millis_duration(ms)`.
#[verifier::external_body]
pub(crate) fn duration_from_millis(ms: u64) -> (d: std::time::Duration)
    ensures
        d == millis_duration(ms),
{
    std::time::Duration::from_millis(ms)
}

/// Exponential back-off delay for reconnection attempt `attempt`:
/// 2 s, doubling each attempt, capped at 120 s.
pub fn backoff_delay(attempt: u32) -> (d: std::time::Duration)
    ensures
        d == millis_duration(backoff_millis(attempt) as u64),
{
    duration_from_millis(backoff_delay_millis(attempt))
}

/// Number of leading `'+'` characters of `s`.
pub open spec fn leading_plus(s: Seq<char>) -> nat
    decreases s.len(),
{
    if s.len() > 0 && s[0] == '+' {
        1 + leading_plus(s.drop_first())
    } else {
        0
    }
}

/// `s` without its leading `'+'` characters.
pub open spec fn normalized_phone(s: Seq<char>) -> Seq<char> {
    s.skip(leading_plus(s) as int)
}

proof fn lemma_leading_plus(s: Seq<char>, i: int)
    requires
        0 <= i <= s.len(),
        forall|j: int| 0 <= j < i ==> s[j] == '+',
        i == s.len() || s[i] != '+',
    ensures
        leading_plus(s) == i,
    decreases s.len(),
{
    if i > 0 {
        assert forall|j: int| 0 <= j < i - 1 implies s.drop_first()[j] == '+' by {
            assert(s.drop_first()[j] == s[j + 1]);
        }
        if i < s.len() {
            assert(s.drop_first()[i - 1] == s[i]);
        }
        lemma_leading_plus(s.drop_first(), i - 1);
    }
}

/// A phone number without its leading `+` signs (E.164 as WhatsApp JIDs use it).
pub fn normalize_phone(phone: &str) -> (r: String)
    ensures
        r@ == normalized_phone(phone@),
{
    let cs = chars_of(phone);
    let mut i: usize = 0;
    while i < cs.len() && cs[i] == '+'
        invariant
            i <= cs.len(),
            forall|j: int| 0 <= j < i ==> cs@[j] == '+',
        decreases cs.len() - i,
    {
        i += 1;
    }
    proof {
        lemma_leading_plus(cs@, i as int);
    }
    let r = string_from_char_range(cs.as_slice(), i, cs.len());
    assert(r@ =~= cs@.skip(i as int));
    r
}

/// The home directory (`dirs::home_dir`), as text. It depends on the
/// environment, so nothing is claimed of it.
#[verifier::external_body]
pub(crate) fn home_dir_string() -> Option<String> {
    dirs::home_dir().map(|h| h.to_string_lossy().into_owned())
}

/// `path` with a leading `~/` expanded against `home` (unchanged otherwise,
/// or when no home directory is known).
pub open spec fn expanded_auth_dir(path: Seq<char>, home: Option<Seq<char>>) -> Seq<char> {
    if is_prefix("~/"@, path) {
        match home {
            Some(h) => path_join(h, path.skip(2)),
            None => path,
        }
    } else {
        path
    }
}

/// Expands a leading `~/` of `path` against the given home directory.
pub fn expand_auth_dir_with_home(path: &str, home: Option<String>) -> (r: String)
    ensures
        r@ == expanded_auth_dir(path@, opt_str_view(home)),
{
    let cs = chars_of(path);
    let tilde = chars_of("~/");
    proof {
        reveal_strlit("~/");
    }
    if starts_with_chars(cs.as_slice(), tilde.as_slice()) {
        match home {
            Some(h) => {
                let rest = string_from_char_range(cs.as_slice(), 2, cs.len());
                assert(rest@ =~= cs@.skip(2));
                let rc = chars_of(rest.as_str());
                if rc.len() > 0 && rc[0] == '/' {
                    return rest;
                }
                let hc = chars_of(h.as_str());
                let mut r = h;
                if hc.len() > 0 && hc[hc.len() - 1] != '/' {
                    push_char(&mut r, '/');
                }
                push_str(&mut r, rest.as_str());
                r
            },
            None => to_owned_string(path),
        }
    } else {
        to_owned_string(path)
    }
}

/// Expands a leading `~/` in `path` to the user's home directory.
pub fn expand_auth_dir(path: &str) -> (r: String)
    ensures
        exists|home: Option<Seq<char>>| r@ == expanded_auth_dir(path@, home),
{
    let home = home_dir_string();
    let ghost hv = opt_str_view(home);
    let r = expand_auth_dir_with_home(path, home);
    assert(r@ == expanded_auth_dir(path@, hv));
    r
}

/// Terminal glyph for a pair of QR modules (top, bottom).
pub open spec fn qr_glyph(top: bool, bottom: bool) -> char {
    if top && bottom {
        '\u{2588}'
    } else if top {
        '\u{2580}'
    } else if bottom {
        '\u{2584}'
    } else {
        ' '
    }
}

/// Rows `y` and `y + 1` of the matrix as one terminal line (a missing bottom row is light).
pub open spec fn qr_line(qr: Seq<Seq<bool>>, y: int, width: nat) -> Seq<char> {
    Seq::new(
        width,
        |x: int| qr_glyph(qr[y][x], if y + 1 < qr.len() { qr[y + 1][x] } else { false }),
    ).push('\n')
}

/// The lines for rows `y`, `y + 2`, ... of the matrix.
pub open spec fn qr_lines_from(qr: Seq<Seq<bool>>, y: nat, width: nat) -> Seq<char>
    decreases qr.len() - y,
{
    if y >= qr.len() {
        Seq::empty()
    } else if y + 2 >= qr.len() {
        qr_line(qr, y as int, width)
    } else {
        qr_line(qr, y as int, width) + qr_lines_from(qr, y + 2, width)
    }
}

/// The whole matrix rendered, two rows per line; the width is that of the first row.
pub open spec fn qr_rendered(qr: Seq<Seq<bool>>) -> Seq<char> {
    if qr.len() == 0 {
        Seq::empty()
    } else {
        qr_lines_from(qr, 0, qr[0].len())
    }
}

/// The glyph at column `x` of the line for rows `y` and `y + 1` (a missing
/// bottom row is light), or the newline that ends the line at `x == width`.
pub open spec fn qr_cell(qr: Seq<Seq<bool>>, y: int, x: int, width: nat) -> char {
    if x < width {
        qr_glyph(qr[y][x], if y + 1 < qr.len() { qr[y + 1][x] } else { false })
    } else {
        '\n'
    }
}

proof fn lemma_qr_lines_layout(qr: Seq<Seq<bool>>, y: nat, w: nat)
    requires
        y < qr.len(),
    ensures
        qr_lines_from(qr, y, w).len() == ((qr.len() - y + 1) / 2) * (w + 1),
        forall|k: int, x: int|
            0 <= k < (qr.len() - y + 1) / 2 && 0 <= x <= w ==> #[trigger] qr_lines_from(qr, y, w)[k * (w + 1) + x]
                == qr_cell(qr, y + 2 * k, x, w),
    decreases qr.len() - y,
{
    let out = qr_lines_from(qr, y, w);
    let line = qr_line(qr, y as int, w);
    let n = (qr.len() - y + 1) / 2;
    assert(line.len() == w + 1);
    assert forall|x: int| 0 <= x <= w implies line[x] == qr_cell(qr, y as int, x, w) by {}
    if y + 2 >= qr.len() {
        assert(n == 1);
        assert(out == line);
        assert(n * (w + 1) == w + 1) by (nonlinear_arith)
            requires
                n == 1,
        ;
        assert forall|k: int, x: int| 0 <= k < n && 0 <= x <= w implies #[trigger] out[k * (w + 1) + x] == qr_cell(
            qr,
            y + 2 * k,
            x,
            w,
        ) by {
            assert(k == 0);
            assert(k * (w + 1) + x == x) by (nonlinear_arith)
                requires
                    k == 0,
            ;
        }
    } else {
        let rest = qr_lines_from(qr, y + 2, w);
        lemma_qr_lines_layout(qr, y + 2, w);
        let m = (qr.len() - (y + 2) + 1) / 2;
        assert(m == n - 1);
        assert(out == line + rest);
        assert(n * (w + 1) == (w + 1) + m * (w + 1)) by (nonlinear_arith)
            requires
                m == n - 1,
        ;
        assert forall|k: int, x: int| 0 <= k < n && 0 <= x <= w implies #[trigger] out[k * (w + 1) + x] == qr_cell(
            qr,
            y + 2 * k,
            x,
            w,
        ) by {
            if k == 0 {
                assert(k * (w + 1) + x == x) by (nonlinear_arith)
                    requires
                        k == 0,
                ;
            } else {
                let j = k - 1;
                assert(k * (w + 1) + x == (w + 1) + (j * (w + 1) + x)) by (nonlinear_arith)
                    requires
                        j == k - 1,
                ;
                assert(0 <= j * (w + 1) + x < m * (w + 1)) by (nonlinear_arith)
                    requires
                        0 <= j < m,
                        0 <= x <= w,
                ;
                assert(rest[j * (w + 1) + x] == qr_cell(qr, (y + 2) + 2 * j, x, w));
                assert((y + 2) + 2 * j == y + 2 * k);
            }
        }
    }
}

/// The layout of a rendered matrix of `h` rows whose first row has `w`
/// modules: `(h + 1) / 2` lines of `w + 1` characters; character `x` of line
/// `k` is the glyph of rows `2k` and `2k + 1` at column `x` (a missing bottom
/// row is light), and the last character of each line is a newline.
pub proof fn lemma_qr_layout(qr: Seq<Seq<bool>>)
    requires
        qr.len() > 0,
    ensures
        qr_rendered(qr).len() == ((qr.len() + 1) / 2) * (qr[0].len() + 1),
        forall|k: int, x: int|
            0 <= k < (qr.len() + 1) / 2 && 0 <= x <= qr[0].len() ==> #[trigger] qr_rendered(qr)[k * (qr[0].len()
                + 1) + x] == qr_cell(qr, 2 * k, x, qr[0].len()),
{
    lemma_qr_lines_layout(qr, 0, qr[0].len());
}

/// Renders a QR bit matrix (row-major, `true` = dark) with half-block characters.
pub fn render_qr_terminal(qr_data: &[Vec<bool>]) -> (s: String)
    requires
        forall|y: int| 0 <= y < qr_data@.len() ==> #[trigger] qr_data@[y]@.len() >= qr_data@[0]@.len(),
    ensures
        s@ == qr_rendered(qr_data@.map_values(|r: Vec<bool>| r@)),
{
    let ghost qr = qr_data@.map_values(|r: Vec<bool>| r@);
    let height = qr_data.len();
    let width = if height > 0 { qr_data[0].len() } else { 0 };
    let mut output = String::new();
    let mut y: usize = 0;
    while y < height
        invariant
            height == qr_data@.len(),
            qr == qr_data@.map_values(|r: Vec<bool>| r@),
            height > 0 ==> width == qr[0].len(),
            forall|k: int| 0 <= k < height ==> #[trigger] qr_data@[k]@.len() >= width,
            height > 0 ==> qr_rendered(qr) == output@ + qr_lines_from(qr, y as nat, width as nat),
            height == 0 ==> output@ == Seq::<char>::empty(),
        decreases height - y,
    {
        let ghost before = output@;
        let mut x: usize = 0;
        while x < width
            invariant
                y < height,
                height == qr_data@.len(),
                qr == qr_data@.map_values(|r: Vec<bool>| r@),
                forall|k: int| 0 <= k < height ==> #[trigger] qr_data@[k]@.len() >= width,
                x <= width,
                output@ == before + Seq::new(
                    x as nat,
                    |i: int|
                        qr_glyph(qr[y as int][i], if y + 1 < qr.len() { qr[y + 1][i] } else { false }),
                ),
            decreases width - x,
        {
            let top = qr_data[y][x];
            let bottom = if y + 1 < height { qr_data[y + 1][x] } else { false };
            assert(top == qr[y as int][x as int]);
            assert(y + 1 < height ==> bottom == qr[y + 1][x as int]);
            let ch = if top && bottom {
                '\u{2588}'
            } else if top {
                '\u{2580}'
            } else if bottom {
                '\u{2584}'
            } else {
                ' '
            };
            push_char(&mut output, ch);
            x += 1;
        }
        push_char(&mut output, '\n');
        assert(output@ =~= before + qr_line(qr, y as int, width as nat));
        if height - y > 2 {
            y += 2;
        } else {
            y = height;
        }
    }
    proof {
        if height > 0 {
            assert(qr_lines_from(qr, y as nat, width as nat) =~= Seq::<char>::empty());
            assert(output@ =~= qr_rendered(qr));
        }
    }
    output
}

/// A message queued for delivery via the WhatsApp Web client.
#[derive(Debug, Clone, PartialEq, Eq)]
pub struct OutboundWaMessage {
    /// Recipient JID, e.g. `"60123456789@s.whatsapp.net"`.
    pub to: String,
    /// Plain-text content to send.
    pub content: String,
    /// Optional message ID to quote/reply to.
    pub reply_to: Option<String>,
}

/// The recipient JID of a chat: the chat id itself when it holds `@`, else the
/// normalized phone number followed by `@s.whatsapp.net`.
pub open spec fn recipient_jid(chat_id: Seq<char>) -> Seq<char> {
    if find_char(chat_id, '@') is Some {
        chat_id
    } else {
        normalized_phone(chat_id) + "@s.whatsapp.net"@
    }
}

/// The WhatsApp message for an outbound bus message.
pub fn outbound_wa_message(msg: &OutboundMessage) -> (m: OutboundWaMessage)
    ensures
        m.to@ == recipient_jid(msg.chat_id@),
        m.content@ == msg.content@,
        m.reply_to == msg.reply_to,
{
    let cs = chars_of(msg.chat_id.as_str());
    assert(cs@.skip(0) =~= cs@);
    let to = match find_from(cs.as_slice(), '@', 0) {
        Some(_) => msg.chat_id.clone(),
        None => {
            let mut t = normalize_phone(msg.chat_id.as_str());
            push_str(&mut t, "@s.whatsapp.net");
            t
        },
    };
    OutboundWaMessage { to, content: msg.content.clone(), reply_to: msg.reply_to.clone() }
}

/// WhatsApp Web channel settings.
#[derive(Debug, Clone, PartialEq, Eq)]
pub struct WhatsAppWebConfig {
    pub enabled: bool,
    pub auth_dir: String,
    pub allow_from: Vec<String>,
    pub deny_by_default: bool,
}

impl WhatsAppWebConfig {
    /// Disabled, session under `~/.zeptoclaw/state/whatsapp_web`, open to everyone.
    pub fn default() -> (c: Self)
        ensures
            !c.enabled,
            c.auth_dir@ == "~/.zeptoclaw/state/whatsapp_web"@,
            c.allow_from@.len() == 0,
            !c.deny_by_default,
    {
        WhatsAppWebConfig {
            enabled: false,
            auth_dir: to_owned_string("~/.zeptoclaw/state/whatsapp_web"),
            allow_from: Vec::new(),
            deny_by_default: false,
        }
    }
}

/// WhatsApp Web channel state: configuration, access control and run flag.
#[derive(Debug)]
pub struct WhatsAppWebChannel {
    pub config: WhatsAppWebConfig,
    pub base_config: BaseChannelConfig,
    pub running: bool,
}

impl WhatsAppWebChannel {
    /// A stopped channel whose allowlist holds the normalized `allow_from` numbers.
    pub fn new(config: WhatsAppWebConfig) -> (c: Self)
        ensures
            c.config == config,
            c.base_config.name@ == "whatsapp_web"@,
            c.base_config.allowlist@.map_values(|s: String| s@) == config.allow_from@.map_values(
                |s: String| normalized_phone(s@),
            ),
            c.base_config.deny_by_default == config.deny_by_default,
            !c.running,
    {
        let mut list: Vec<String> = Vec::new();
        let mut i: usize = 0;
        while i < config.allow_from.len()
            invariant
                i <= config.allow_from@.len(),
                list@.len() == i,
                forall|j: int| 0 <= j < i ==> #[trigger] list@[j]@ == normalized_phone(config.allow_from@[j]@),
            decreases config.allow_from@.len() - i,
        {
            let n = normalize_phone(config.allow_from[i].as_str());
            list.push(n);
            i += 1;
        }
        assert(list@.map_values(|s: String| s@) =~= config.allow_from@.map_values(
            |s: String| normalized_phone(s@),
        ));
        let deny = config.deny_by_default;
        WhatsAppWebChannel {
            config,
            base_config: BaseChannelConfig {
                name: to_owned_string("whatsapp_web"),
                allowlist: list,
                deny_by_default: deny,
            },
            running: false,
        }
    }

    /// The channel name, `"whatsapp_web"` for a new channel.
    pub fn name(&self) -> (s: &str)
        ensures
            s@ == self.base_config.name@,
    {
        self.base_config.name.as_str()
    }

    /// Whether the channel is running.
    pub fn is_running(&self) -> (r: bool)
        ensures
            r == self.running,
    {
        self.running
    }

    /// Marks the channel as running or stopped.
    pub fn set_running(&mut self, running: bool)
        ensures
            final(self).running == running,
            final(self).config == old(self).config,
            final(self).base_config == old(self).base_config,
    {
        self.running = running;
    }

    /// Whether `user_id` may talk to the agent; the number is normalized first.
    pub fn is_allowed(&self, user_id: &str) -> (r: bool)
        ensures
            r == allowed_by(
                self.base_config.allowlist@.map_values(|s: String| s@),
                self.base_config.deny_by_default,
                normalized_phone(user_id@),
            ),
    {
        let n = normalize_phone(user_id);
        self.base_config.is_allowed(n.as_str())
    }
}

} // verus!
