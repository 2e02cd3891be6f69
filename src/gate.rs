use vstd::prelude::*;

verus! {

/// The whitespace-separated words of `s`, as `str::split_whitespace` yields them.
pub uninterp spec fn whitespace_words(s: Seq<char>) -> Seq<Seq<char>>;

/// Relies on `str::split_whitespace`: the words of `s` in order, each one
/// copied into a `String`.
#[verifier::external_body]
fn words(s: &str) -> (r: Vec<String>)
    ensures
        r@.map_values(|w: String| w@) == whitespace_words(s@),
{
    s.split_whitespace().map(|w| w.to_string()).collect()
}

/// Within a minute of `target`: the two times of day, in seconds, differ by
/// at most sixty seconds.
pub open spec fn close_to(now: int, target: int) -> bool {
    -60 <= now - target <= 60
}

/// Whether time of day `now` is within a minute of `time` (both in seconds
/// since midnight).
pub fn is_close_to_time(now: u32, time: u32) -> (b: bool)
    ensures
        b == close_to(now as int, time as int),
{
    let diff: i64 = now as i64 - time as i64;
    -60 <= diff && diff <= 60
}

pub open spec fn is_digit(c: char) -> bool {
    '0' <= c <= '9'
}

/// The number that the decimal digits `s` write.
pub open spec fn digits_value(s: Seq<char>) -> nat
    decreases s.len(),
{
    if s.len() == 0 {
        0
    } else {
        digits_value(s.drop_last()) * 10 + (s.last() as nat - '0' as nat) as nat
    }
}

/// `s` without the one `+` that may lead it.
pub open spec fn unsigned_part(s: Seq<char>) -> Seq<char> {
    if s.len() > 0 && s[0] == '+' {
        s.drop_first()
    } else {
        s
    }
}

/// What `u32::from_str` makes of `s`: an optional `+`, then at least one
/// decimal digit and nothing else, of a value that fits in a `u32`.
pub open spec fn parse_u32(s: Seq<char>) -> Option<nat> {
    let t = unsigned_part(s);
    if t.len() > 0 && (forall|i: int| 0 <= i < t.len() ==> is_digit(#[trigger] t[i]))
        && digits_value(t) <= u32::MAX {
        Some(digits_value(t))
    } else {
        None
    }
}

/// The value of the first word that is a `u32`, or zero where none is.
pub open spec fn first_code(ws: Seq<Seq<char>>) -> nat
    decreases ws.len(),
{
    if ws.len() == 0 {
        0
    } else {
        match parse_u32(ws[0]) {
            Some(v) => v,
            None => first_code(ws.drop_first()),
        }
    }
}

proof fn lemma_digits_value_grows(s: Seq<char>, k: int)
    requires
        0 <= k <= s.len(),
    ensures
        digits_value(s.subrange(0, k)) <= digits_value(s),
    decreases s.len() - k,
{
    if k < s.len() {
        lemma_digits_value_grows(s, k + 1);
        assert(s.subrange(0, k + 1).drop_last() =~= s.subrange(0, k));
    } else {
        assert(s.subrange(0, k) =~= s);
    }
}

/// Reads `s` as `u32::from_str` does.
pub fn parse_code(s: &str) -> (r: Option<u32>)
    ensures
        r.is_some() == parse_u32(s@).is_some(),
        r.is_some() ==> r.unwrap() as nat == parse_u32(s@).unwrap(),
{
    let n = s.unicode_len();
    let mut start: usize = 0;
    if n > 0 && s.get_char(0) == '+' {
        start = 1;
    }
    let ghost t = unsigned_part(s@);
    assert(t =~= s@.subrange(start as int, n as int));
    if start == n {
        return None;
    }
    let mut value: u64 = 0;
    let mut i: usize = start;
    while i < n
        invariant
            start <= i <= n,
            n == s@.len(),
            t == unsigned_part(s@),
            t =~= s@.subrange(start as int, n as int),
            forall|k: int| 0 <= k < i - start ==> is_digit(#[trigger] t[k]),
            value as nat == digits_value(t.subrange(0, i - start)),
            value <= u32::MAX,
        decreases n - i,
    {
        let c = s.get_char(i);
        if !('0' <= c && c <= '9') {
            assert(t[i - start] == c);
            assert(!is_digit(t[i - start]));
            assert(!(forall|k: int| 0 <= k < t.len() ==> is_digit(#[trigger] t[k])));
            assert(parse_u32(s@).is_none());
            return None;
        }
        let ghost prefix = t.subrange(0, i - start + 1);
        assert(prefix.drop_last() =~= t.subrange(0, i - start));
        let next: u64 = value * 10 + (c as u64 - '0' as u64);
        assert(next as nat == digits_value(prefix));
        if next > u32::MAX as u64 {
            proof {
                lemma_digits_value_grows(t, i - start + 1);
                assert(digits_value(t) > u32::MAX);
                assert(parse_u32(s@).is_none());
            }
            return None;
        }
        value = next;
        i = i + 1;
    }
    assert(t.subrange(0, i - start) =~= t);
    Some(value as u32)
}

/// The success code of a notifier response that is already split into words:
/// the first word that is a `u32`, or zero where none is.
pub fn first_numeric(ws: &Vec<String>) -> (r: u32)
    ensures
        r as nat == first_code(ws@.map_values(|w: String| w@)),
{
    let ghost views = ws@.map_values(|w: String| w@);
    let mut i: usize = 0;
    assert(views.subrange(0, views.len() as int) =~= views);
    while i < ws.len()
        invariant
            i <= ws@.len(),
            views == ws@.map_values(|w: String| w@),
            first_code(views) == first_code(views.subrange(i as int, views.len() as int)),
        decreases ws@.len() - i,
    {
        let ghost rest = views.subrange(i as int, views.len() as int);
        assert(rest[0] == ws@[i as int]@);
        assert(rest.drop_first() =~= views.subrange(i + 1, views.len() as int));
        if let Some(v) = parse_code(ws[i].as_str()) {
            return v;
        }
        i = i + 1;
    }
    assert(views.subrange(i as int, views.len() as int).len() == 0);
    0
}

/// The whitespace-separated words of `s`, in order.
pub fn split_words(s: &str) -> (r: Vec<String>)
    ensures
        r@.map_values(|w: String| w@) == whitespace_words(s@),
{
    words(s)
}

/// The success code of a notifier response: the first whitespace-separated
/// word that is a `u32`, or zero where none is.
pub fn response_code(res: &str) -> (r: u32)
    ensures
        r as nat == first_code(whitespace_words(res@)),
{
    let ws = words(res);
    first_numeric(&ws)
}

/// What became of the attempt to notify the person on duty.
pub enum SendOutcome {
    /// Nobody is on duty today.
    NoAssignee,
    /// The notifier could not be reached.
    TransportFailed,
    /// The notifier answered with this text.
    Replied(String),
}

/// Whether the attempt succeeded: the notifier answered with a positive code.
pub open spec fn outcome_sent(o: SendOutcome) -> bool {
    match o {
        SendOutcome::Replied(res) => first_code(whitespace_words(res@)) > 0,
        _ => false,
    }
}

/// The status that the attempt leaves behind.
pub open spec fn outcome_status(o: SendOutcome) -> Seq<char> {
    match o {
        SendOutcome::NoAssignee => "no assignee"@,
        SendOutcome::TransportFailed => "Failed"@,
        SendOutcome::Replied(res) => res@,
    }
}

/// The daily notification state: whether today's notice went out, what the
/// last attempt reported, and whether one more attempt was asked for.
pub struct Gate {
    pub sent_today: bool,
    pub status: String,
    pub resend: bool,
}

impl Gate {
    /// Whether a notice counts as sent after the reset step of a tick at `now`.
    pub open spec fn sent_after_reset(&self, now: int, reset_time: int) -> bool {
        if close_to(now, reset_time) {
            false
        } else {
            self.sent_today
        }
    }

    /// Whether a tick at `now` attempts a notice.
    pub open spec fn attempts(&self, now: int, send_time: int, reset_time: int) -> bool {
        (!self.sent_after_reset(now, reset_time) && close_to(now, send_time)) || self.resend
    }

    /// Nothing sent, no status, no resend asked for.
    pub fn new() -> (g: Gate)
        ensures
            !g.sent_today,
            g.status@.len() == 0,
            !g.resend,
    {
        Gate { sent_today: false, status: String::new(), resend: false }
    }

    /// Asks for one more attempt at the next tick, whatever was sent today.
    pub fn request_resend(&mut self)
        ensures
            final(self).resend,
            final(self).sent_today == old(self).sent_today,
            final(self).status == old(self).status,
    {
        self.resend = true;
    }

    /// The first step of a tick at time of day `now` (seconds since midnight):
    /// within a minute of `reset_time` the day starts over; then an attempt is
    /// due where nothing was sent and `now` is within a minute of `send_time`,
    /// or where a resend was asked for. The resend request is used up.
    pub fn begin_refresh(&mut self, now: u32, send_time: u32, reset_time: u32) -> (attempt: bool)
        ensures
            attempt == old(self).attempts(now as int, send_time as int, reset_time as int),
            final(self).sent_today == old(self).sent_after_reset(now as int, reset_time as int),
            close_to(now as int, reset_time as int) ==> final(self).status@.len() == 0,
            !close_to(now as int, reset_time as int) ==> final(self).status == old(self).status,
            !final(self).resend,
    {
        if is_close_to_time(now, reset_time) {
            self.sent_today = false;
            self.status = String::new();
        }
        let attempt = (!self.sent_today && is_close_to_time(now, send_time)) || self.resend;
        self.resend = false;
        attempt
    }

    /// The second step of a tick that attempted a notice: records how it went.
    /// Where it did not succeed on the alert day, the maintainer is to be
    /// alerted (the result is `true`) and the day counts as done.
    pub fn finish_refresh(&mut self, outcome: SendOutcome, alert_today: bool) -> (escalate: bool)
        ensures
            final(self).status@ == outcome_status(outcome),
            final(self).sent_today == (outcome_sent(outcome) || alert_today),
            escalate == (!outcome_sent(outcome) && alert_today),
            final(self).resend == old(self).resend,
    {
        let ghost o = outcome;
        let sent = match outcome {
            SendOutcome::NoAssignee => {
                self.status = String::from_str("no assignee");
                false
            },
            SendOutcome::TransportFailed => {
                self.status = String::from_str("Failed");
                false
            },
            SendOutcome::Replied(res) => {
                let code = response_code(res.as_str());
                self.status = res;
                code > 0
            },
        };
        let escalate = !sent && alert_today;
        self.sent_today = sent || alert_today;
        escalate
    }

    /// After a notice went out, a second tick with no resend asked for, outside
    /// the reset window, attempts nothing and leaves the notice counted as sent.
    pub proof fn lemma_no_second_send(&self, now: u32, send_time: u32, reset_time: u32)
        requires
            self.sent_today,
            !self.resend,
            !close_to(now as int, reset_time as int),
        ensures
            !self.attempts(now as int, send_time as int, reset_time as int),
            self.sent_after_reset(now as int, reset_time as int),
    {
    }

    /// A tick within a minute of the reset time leaves nothing counted as
    /// sent, whatever the state before, where the tick is not within a minute
    /// of the send time and no resend was asked for: no notice is attempted.
    pub proof fn lemma_reset_clears(&self, now: u32, send_time: u32, reset_time: u32)
        requires
            close_to(now as int, reset_time as int),
            !close_to(now as int, send_time as int),
            !self.resend,
        ensures
            !self.sent_after_reset(now as int, reset_time as int),
            !self.attempts(now as int, send_time as int, reset_time as int),
    {
    }
}

} // verus!
