//! The RDP connection history that `hydradesk status` shows: who is connected
//! now (from `ss`) and the last sessions (from GNOME Remote Desktop's journal).
use vstd::prelude::*;
use vstd::string::StringSliceAdditionalSpecFns;
use crate::detect::{run1, runs, Invocation, RunIn};
use crate::number::{
    decimal_of, i64_text, parse_i32, parse_i64, parse_signed_of, parse_u32, parse_u8, parse_unsigned_of,
    signed_decimal_of,
};
use crate::text::{
    chars_of, extend, has_sub, is_digit, lines, lines_of, lower, lowercase_of, seqs_of, split,
    split_on, string_of, words, words_of,
};

verus! {

/// One dot-separated part of an IPv4 address: one to three characters that
/// `u8::from_str` accepts (such parts are ASCII, so characters and bytes agree).
pub open spec fn ipv4_part(p: Seq<char>) -> bool {
    p.len() > 0 && p.len() <= 3 && parse_unsigned_of(p, 255) is Some
}

/// `s` is four valid parts joined by dots.
pub open spec fn ipv4_text(s: Seq<char>) -> bool {
    let parts = split_on(s, '.');
    parts.len() == 4 && forall|i: int| 0 <= i < 4 ==> ipv4_part(#[trigger] parts[i])
}

/// Is `s` a dotted-quad IPv4 address?
pub fn is_ipv4(s: &Vec<char>) -> (r: bool)
    ensures
        r == ipv4_text(s@),
{
    let parts = split(s, '.');
    if parts.len() != 4 {
        return false;
    }
    let mut i: usize = 0;
    while i < 4
        invariant
            i <= 4,
            parts@.len() == 4,
            seqs_of(parts@) == split_on(s@, '.'),
            forall|j: int| 0 <= j < i ==> ipv4_part(#[trigger] split_on(s@, '.')[j]),
        decreases 4 - i,
    {
        assert(seqs_of(parts@)[i as int] == parts@[i as int]@);
        let p = &parts[i];
        if !(p.len() > 0 && p.len() <= 3 && parse_u8(p).is_some()) {
            return false;
        }
        i = i + 1;
    }
    true
}


/// A character that can belong to a dotted-quad address.
pub open spec fn ip_char(c: char) -> bool {
    is_digit(c) || c == '.'
}

/// The pieces of `s` between characters that cannot belong to an address
/// (`str::split` with that predicate).
pub open spec fn ip_runs(s: Seq<char>) -> Seq<Seq<char>>
    decreases s.len(),
{
    if s.len() == 0 {
        seq![Seq::<char>::empty()]
    } else {
        let p = ip_runs(s.drop_last());
        if !ip_char(s.last()) {
            p.push(Seq::<char>::empty())
        } else {
            p.update(p.len() - 1, p.last().push(s.last()))
        }
    }
}

proof fn lemma_ip_runs_nonempty(s: Seq<char>)
    ensures
        ip_runs(s).len() >= 1,
    decreases s.len(),
{
    if s.len() > 0 {
        lemma_ip_runs_nonempty(s.drop_last());
    }
}

/// The first of `ps` that is an IPv4 address.
pub open spec fn first_ipv4(ps: Seq<Seq<char>>) -> Option<Seq<char>>
    decreases ps.len(),
{
    if ps.len() == 0 {
        None
    } else if ipv4_text(ps[0]) {
        Some(ps[0])
    } else {
        first_ipv4(ps.drop_first())
    }
}

/// The first IPv4 address in `s`, delimited by characters that cannot belong
/// to one.
pub open spec fn ipv4_in(s: Seq<char>) -> Option<Seq<char>> {
    first_ipv4(ip_runs(s))
}

fn runs_of(s: &Vec<char>) -> (r: Vec<Vec<char>>)
    ensures
        seqs_of(r@) == ip_runs(s@),
{
    let mut done: Vec<Vec<char>> = Vec::new();
    let mut cur: Vec<char> = Vec::new();
    let mut i: usize = 0;
    while i < s.len()
        invariant
            i <= s.len(),
            seqs_of(done@).push(cur@) == ip_runs(s@.take(i as int)),
        decreases s.len() - i,
    {
        let ghost before = s@.take(i as int);
        assert(s@.take(i + 1).drop_last() =~= before);
        proof { lemma_ip_runs_nonempty(before); }
        let c = s[i];
        if !(('0' <= c && c <= '9') || c == '.') {
            let piece = cur;
            done.push(piece);
            cur = Vec::new();
            assert(seqs_of(done@).push(cur@) =~= ip_runs(before).push(Seq::<char>::empty()));
        } else {
            cur.push(c);
            assert(seqs_of(done@).push(cur@) =~= ip_runs(before).update(
                ip_runs(before).len() - 1, ip_runs(before).last().push(c)));
        }
        i = i + 1;
    }
    assert(s@.take(s.len() as int) =~= s@);
    done.push(cur);
    assert(seqs_of(done@) =~= ip_runs(s@));
    done
}

/// The first IPv4 address in `s`.
pub fn extract_ipv4(s: &Vec<char>) -> (r: Option<Vec<char>>)
    ensures
        match r {
            Some(v) => ipv4_in(s@) == Some(v@),
            None => ipv4_in(s@) is None,
        },
{
    let mut runs = runs_of(s);
    let ghost all = seqs_of(runs@);
    let mut i: usize = 0;
    assert(all.skip(0) =~= all);
    while i < runs.len()
        invariant
            i <= runs.len(),
            all == seqs_of(runs@),
            ipv4_in(s@) == first_ipv4(all.skip(i as int)),
        decreases runs.len() - i,
    {
        assert(all.skip(i as int)[0] == runs@[i as int]@);
        assert(all.skip(i as int).drop_first() =~= all.skip(i + 1));
        if is_ipv4(&runs[i]) {
            let found = runs.swap_remove(i);
            return Some(found);
        }
        i = i + 1;
    }
    None
}

/// `a / b` as Rust's integer division computes it: rounded toward zero.
pub open spec fn div_toward_zero(a: int, b: int) -> int {
    if a >= 0 {
        a / b
    } else {
        -((-a) / b)
    }
}

/// `a % b` as Rust computes it: the sign of the dividend.
pub open spec fn rem_toward_zero(a: int, b: int) -> int {
    a - b * div_toward_zero(a, b)
}

/// Days since 1970-01-01 of a proleptic Gregorian date, for months 1 to 12
/// and days 1 to 31 (a day past the month's end counts on into the next).
pub open spec fn days_from_civil_of(year: int, month: int, day: int) -> Option<int> {
    if !(1 <= month <= 12) || !(1 <= day <= 31) {
        None
    } else {
        let y = year - if month <= 2 { 1int } else { 0int };
        let era = div_toward_zero(if y >= 0 { y } else { y - 399 }, 400);
        let yoe = y - era * 400;
        let doy = (153 * (month + if month > 2 { -3int } else { 9int }) + 2) / 5 + day - 1;
        let doe = yoe * 365 + yoe / 4 - yoe / 100 + doy;
        Some(era * 146097 + doe - 719468)
    }
}

/// Days since 1970-01-01 of a date given as year, month, and day.
pub fn days_from_civil(year: i32, month: u32, day: u32) -> (r: Option<i64>)
    ensures
        match r {
            Some(d) => days_from_civil_of(year as int, month as int, day as int) == Some(d as int),
            None => days_from_civil_of(year as int, month as int, day as int) is None,
        },
{
    if !(1 <= month && month <= 12) || !(1 <= day && day <= 31) {
        return None;
    }
    let y: i64 = year as i64 - if month <= 2 { 1 } else { 0 };
    let era: i64 = if y >= 0 { y / 400 } else { -((399 - y) / 400) };
    let yoe: i64 = y - era * 400;
    assert(0 <= yoe < 400) by (nonlinear_arith)
        requires
            yoe == y - era * 400,
            y >= 0 ==> era == y / 400,
            y < 0 ==> era == -((399 - y) / 400),
    ;
    let m: i64 = month as i64;
    let doy: i64 = (153 * (m + if m > 2 { -3 } else { 9 }) + 2) / 5 + day as i64 - 1;
    let doe: i64 = yoe * 365 + yoe / 4 - yoe / 100 + doy;
    assert(era * 146097 >= -1000000000000 && era * 146097 <= 1000000000000) by (nonlinear_arith)
        requires
            -5400000 <= era <= 5400000,
    ;
    Some(era * 146097 + doe - 719468)
}


/// 1970-01-01 is day zero of the count.
pub proof fn lemma_epoch_is_day_zero()
    ensures
        days_from_civil_of(1970, 1, 1) == Some(0int),
{
}

/// The Gregorian calendar repeats every 400 years, which hold 146097 days.
pub proof fn lemma_days_repeat_every_400_years(year: int, month: int, day: int)
    requires
        1 <= month <= 12,
        1 <= day <= 31,
    ensures
        days_from_civil_of(year + 400, month, day) == Some(
            days_from_civil_of(year, month, day)->0 + 146097,
        ),
{
    let y = year - if month <= 2 { 1int } else { 0int };
    let y2 = y + 400;
    let a = if y >= 0 { y } else { y - 399 };
    let a2 = if y2 >= 0 { y2 } else { y2 - 399 };
    let era = div_toward_zero(a, 400);
    let era2 = div_toward_zero(a2, 400);
    assert(era == y / 400) by (nonlinear_arith)
        requires
            a == (if y >= 0 { y } else { y - 399 }),
            era == (if a >= 0 { a / 400 } else { -((-a) / 400) }),
    ;
    assert(era2 == y2 / 400) by (nonlinear_arith)
        requires
            a2 == (if y2 >= 0 { y2 } else { y2 - 399 }),
            era2 == (if a2 >= 0 { a2 / 400 } else { -((-a2) / 400) }),
    ;
    assert(y2 / 400 == y / 400 + 1) by (nonlinear_arith)
        requires
            y2 == y + 400,
    ;
}

/// Within the days a month may have, the next day is one day later.
pub proof fn lemma_next_day(year: int, month: int, day: int)
    requires
        1 <= month <= 12,
        1 <= day < 31,
    ensures
        days_from_civil_of(year, month, day + 1) == Some(days_from_civil_of(year, month, day)->0 + 1),
{
}

/// Times that dates with four-character years can give, far from `i64`'s limits.
pub open spec fn epoch_in_range(e: i64) -> bool {
    -0x4000_0000_0000_0000 < e < 0x4000_0000_0000_0000
}

/// Where the fields of a `journalctl -o short-iso` timestamp
/// (`YYYY-MM-DDTHH:MM:SS...`) lie in its bytes, read as text.
pub open spec fn byte_field(b: Seq<u8>, from: int, to: int) -> Seq<char> {
    b.subrange(from, to).map_values(|x: u8| x as char)
}

/// Seconds since 1970-01-01 of the `short-iso` timestamp whose UTF-8 bytes
/// are `b`: the first 19 bytes hold year, month, day, hour, minute and
/// second, each read as `from_str` reads its integer type; the separators are
/// not checked. (Taking bytes `from..to` of the text, as `str::get` does,
/// succeeds exactly where these fields parse, because they are ASCII.)
pub open spec fn iso_epoch_of(b: Seq<u8>) -> Option<int> {
    if b.len() < 19 {
        None
    } else {
        let year = parse_signed_of(byte_field(b, 0, 4), i32::MIN as int, i32::MAX as int);
        let month = parse_unsigned_of(byte_field(b, 5, 7), u32::MAX as nat);
        let day = parse_unsigned_of(byte_field(b, 8, 10), u32::MAX as nat);
        let hour = parse_signed_of(byte_field(b, 11, 13), i64::MIN as int, i64::MAX as int);
        let minute = parse_signed_of(byte_field(b, 14, 16), i64::MIN as int, i64::MAX as int);
        let second = parse_signed_of(byte_field(b, 17, 19), i64::MIN as int, i64::MAX as int);
        if year is Some && month is Some && day is Some && hour is Some && minute is Some && second is Some {
            match days_from_civil_of(year->0, month->0 as int, day->0 as int) {
                Some(days) => Some(days * 86400 + hour->0 * 3600 + minute->0 * 60 + second->0),
                None => None,
            }
        } else {
            None
        }
    }
}

/// Bytes `from..to` of `b`, as characters.
fn byte_chars(b: &[u8], from: usize, to: usize) -> (r: Vec<char>)
    requires
        from <= to <= b@.len(),
    ensures
        r@ == byte_field(b@, from as int, to as int),
{
    let mut r: Vec<char> = Vec::new();
    let mut k: usize = from;
    while k < to
        invariant
            from <= k <= to <= b@.len(),
            r@ == byte_field(b@, from as int, k as int),
        decreases to - k,
    {
        r.push(b[k] as char);
        assert(r@ =~= byte_field(b@, from as int, k + 1));
        k = k + 1;
    }
    r
}

/// Seconds since 1970-01-01 of a `short-iso` timestamp such as
/// `2024-05-01T10:20:30+0200` (the zone is ignored).
pub fn parse_short_iso_epoch(ts: &str) -> (r: Option<i64>)
    ensures
        match r {
            Some(e) => iso_epoch_of(ts.spec_bytes()) == Some(e as int) && epoch_in_range(e),
            None => iso_epoch_of(ts.spec_bytes()) is None,
        },
{
    let b = ts.as_bytes();
    if b.len() < 19 {
        return None;
    }
    let year = match parse_i32(&byte_chars(b, 0, 4)) {
        Some(v) => v,
        None => return None,
    };
    let month = match parse_u32(&byte_chars(b, 5, 7)) {
        Some(v) => v,
        None => return None,
    };
    let day = match parse_u32(&byte_chars(b, 8, 10)) {
        Some(v) => v,
        None => return None,
    };
    let hour = match parse_i64(&byte_chars(b, 11, 13)) {
        Some(v) => v,
        None => return None,
    };
    let minute = match parse_i64(&byte_chars(b, 14, 16)) {
        Some(v) => v,
        None => return None,
    };
    let second = match parse_i64(&byte_chars(b, 17, 19)) {
        Some(v) => v,
        None => return None,
    };
    proof {
        crate::number::lemma_two_chars_bounded(byte_field(b@, 11, 13));
        crate::number::lemma_two_chars_bounded(byte_field(b@, 14, 16));
        crate::number::lemma_two_chars_bounded(byte_field(b@, 17, 19));
    }
    let days = match days_from_civil(year, month, day) {
        Some(d) => d,
        None => return None,
    };
    assert(-5400000 * 146097 - 800000 <= days <= 5400000 * 146097 + 800000);
    Some(days * 86400 + hour * 3600 + minute * 60 + second)
}


/// A duration of `seconds >= 0` reads as whole hours and the minutes left
/// over (always below 60) from an hour on, as minutes and the seconds left
/// over from a minute on, else as seconds.
pub proof fn lemma_duration_of_nonnegative(seconds: int)
    requires
        seconds >= 0,
    ensures
        seconds >= 3600 ==> duration_text(seconds) == decimal_of((seconds / 3600) as nat) + "h "@ + decimal_of(
            ((seconds % 3600) / 60) as nat,
        ) + "m"@,
        seconds >= 3600 ==> (seconds % 3600) / 60 < 60,
        60 <= seconds < 3600 ==> duration_text(seconds) == decimal_of((seconds / 60) as nat) + "m "@ + decimal_of(
            (seconds % 60) as nat,
        ) + "s"@,
        0 <= seconds < 60 ==> duration_text(seconds) == decimal_of(seconds as nat) + "s"@,
{
    let h = seconds / 3600;
    let m = (seconds % 3600) / 60;
    assert(seconds - 3600 * h == seconds % 3600);
    assert(rem_toward_zero(seconds, 3600) == seconds % 3600);
    assert(seconds % 3600 >= 0);
    assert(rem_toward_zero(seconds, 60) == seconds % 60);
    if seconds < 3600 {
        assert(h == 0);
        assert(seconds % 3600 == seconds);
    }
}

/// How long a session lasted, as `status` shows it: hours and minutes from an
/// hour on, minutes and seconds from a minute on, else seconds (with Rust's
/// division and remainder, which round toward zero).
pub open spec fn duration_text(seconds: int) -> Seq<char> {
    let hours = div_toward_zero(seconds, 3600);
    let minutes = div_toward_zero(rem_toward_zero(seconds, 3600), 60);
    let secs = rem_toward_zero(seconds, 60);
    if hours > 0 {
        signed_decimal_of(hours) + "h "@ + signed_decimal_of(minutes) + "m"@
    } else if minutes > 0 {
        signed_decimal_of(minutes) + "m "@ + signed_decimal_of(secs) + "s"@
    } else {
        signed_decimal_of(secs) + "s"@
    }
}

/// `a / b` rounded toward zero, for `b > 0`.
fn div_tz(a: i64, b: i64) -> (r: i64)
    requires
        b > 1,
    ensures
        r == div_toward_zero(a as int, b as int),
{
    if a >= 0 {
        a / b
    } else {
        let m: i128 = -(a as i128);
        let q: i128 = m / (b as i128);
        assert(q <= m);
        assert(q * b <= m) by (nonlinear_arith)
            requires q == m / (b as i128), b > 1, m > 0;
        assert(q < 0x8000_0000_0000_0000) by (nonlinear_arith)
            requires q * b <= m, b > 1, m <= 0x8000_0000_0000_0000, q >= 0;
        (-q) as i64
    }
}

/// The text for a session duration of `seconds`.
pub fn format_duration(seconds: i64) -> (r: String)
    ensures
        r@ == duration_text(seconds as int),
        seconds >= 3600 ==> r@ == decimal_of((seconds / 3600) as nat) + "h "@ + decimal_of(
            ((seconds % 3600) / 60) as nat,
        ) + "m"@,
        60 <= seconds < 3600 ==> r@ == decimal_of((seconds / 60) as nat) + "m "@ + decimal_of(
            (seconds % 60) as nat,
        ) + "s"@,
        0 <= seconds < 60 ==> r@ == decimal_of(seconds as nat) + "s"@,
{
    proof {
        if seconds >= 0 {
            lemma_duration_of_nonnegative(seconds as int);
        }
    }
    let hours = div_tz(seconds, 3600);
    assert(-2562047788015216 <= hours <= 2562047788015215);
    let rem_h: i64 = seconds - 3600 * hours;
    assert(-3600 < rem_h < 3600) by (nonlinear_arith)
        requires
            rem_h == seconds - 3600 * hours,
            hours == div_toward_zero(seconds as int, 3600),
    ;
    let minutes = div_tz(rem_h, 60);
    let q = div_tz(seconds, 60);
    assert(-153722867280912931 <= q <= 153722867280912931);
    let secs: i64 = seconds - 60 * q;
    let mut v: Vec<char>;
    if hours > 0 {
        v = i64_text(hours);
        extend(&mut v, &chars_of("h "));
        extend(&mut v, &i64_text(minutes));
        extend(&mut v, &chars_of("m"));
    } else if minutes > 0 {
        v = i64_text(minutes);
        extend(&mut v, &chars_of("m "));
        extend(&mut v, &i64_text(secs));
        extend(&mut v, &chars_of("s"));
    } else {
        v = i64_text(secs);
        extend(&mut v, &chars_of("s"));
    }
    string_of(&v)
}


/// Whether a journal line records a client connecting or disconnecting.
#[derive(Debug, Clone, Copy, PartialEq, Eq, Structural)]
pub enum RdpEventKind {
    Connected,
    Disconnected,
}

impl RdpEventKind {
    /// The verb shown for the event.
    pub fn action(&self) -> (r: &'static str)
        ensures
            r@ == match *self {
                RdpEventKind::Connected => "connected"@,
                RdpEventKind::Disconnected => "disconnected"@,
            },
    {
        match self {
            RdpEventKind::Connected => "connected",
            RdpEventKind::Disconnected => "disconnected",
        }
    }
}

/// A client connecting or disconnecting, as a journal line records it.
#[derive(Debug, Clone)]
pub struct RdpLogEvent {
    pub timestamp: String,
    pub epoch: Option<i64>,
    pub ip: String,
    pub kind: RdpEventKind,
}

/// A journal event as plain values.
pub struct EventView {
    pub timestamp: Seq<char>,
    pub epoch: Option<int>,
    pub ip: Seq<char>,
    pub kind: RdpEventKind,
}

impl View for RdpLogEvent {
    type V = EventView;

    open spec fn view(&self) -> EventView {
        EventView {
            timestamp: self.timestamp@,
            epoch: match self.epoch {
                Some(e) => Some(e as int),
                None => None,
            },
            ip: self.ip@,
            kind: self.kind,
        }
    }
}

/// What a lowercased journal line says happened: a disconnect wins over a connect.
pub open spec fn event_kind_of(l: Seq<char>) -> Option<RdpEventKind> {
    if has_sub(l, "disconnect"@) || has_sub(l, "disconnected"@) || has_sub(l, "connection closed"@)
        || has_sub(l, "closed connection"@) || has_sub(l, "client closed"@) {
        Some(RdpEventKind::Disconnected)
    } else if has_sub(l, "connect"@) || has_sub(l, "connected"@) || has_sub(l, "authenticated"@)
        || has_sub(l, "login"@) || has_sub(l, "accepted"@) {
        Some(RdpEventKind::Connected)
    } else {
        None
    }
}

/// The event that a journal line records: its kind, the first IPv4 address
/// in it, and its first word as the timestamp (with its time in seconds when
/// that is a `short-iso` timestamp).
pub open spec fn event_of(line: Seq<char>) -> Option<EventView> {
    match event_kind_of(lowercase_of(line)) {
        None => None,
        Some(kind) => match ipv4_in(line) {
            None => None,
            Some(ip) => if words_of(line).len() == 0 {
                None
            } else {
                Some(
                    EventView {
                        timestamp: words_of(line)[0],
                        epoch: iso_epoch_of(vstd::utf8::encode_utf8(words_of(line)[0])),
                        ip,
                        kind,
                    },
                )
            },
        },
    }
}

/// The event that a journal line records.
pub fn parse_rdp_event(line: &Vec<char>) -> (r: Option<RdpLogEvent>)
    ensures
        match r {
            Some(e) => event_of(line@) == Some(e@) && timed_in_range(e),
            None => event_of(line@) is None,
        },
{
    let l = lower(line);
    let kind = if has(&l, "disconnect") || has(&l, "disconnected") || has(&l, "connection closed")
        || has(&l, "closed connection") || has(&l, "client closed") {
        RdpEventKind::Disconnected
    } else if has(&l, "connect") || has(&l, "connected") || has(&l, "authenticated") || has(
        &l,
        "login",
    ) || has(&l, "accepted") {
        RdpEventKind::Connected
    } else {
        return None;
    };
    let ip = match extract_ipv4(line) {
        Some(ip) => ip,
        None => return None,
    };
    let mut w = words(line);
    if w.len() == 0 {
        return None;
    }
    assert(seqs_of(w@)[0] == w@[0]@);
    let timestamp = string_of(&w.swap_remove(0));
    let epoch = parse_short_iso_epoch(timestamp.as_str());
    let e = RdpLogEvent { timestamp, epoch, ip: string_of(&ip), kind };
    assert(event_of(line@) == Some(e@));
    Some(e)
}

/// Does the text `v` contain the literal `p`?
fn has(v: &Vec<char>, p: &str) -> (r: bool)
    ensures
        r == has_sub(v@, p@),
{
    crate::text::contains(v, &chars_of(p))
}

/// The event's time, if it has one, is far from `i64`'s limits.
pub open spec fn timed_in_range(e: RdpLogEvent) -> bool {
    match e.epoch {
        Some(x) => epoch_in_range(x),
        None => true,
    }
}

/// The events recorded by the lines of `ls`, in order.
pub open spec fn events_in(ls: Seq<Seq<char>>) -> Seq<EventView>
    decreases ls.len(),
{
    if ls.len() == 0 {
        Seq::empty()
    } else {
        match event_of(ls.last()) {
            Some(e) => events_in(ls.drop_last()).push(e),
            None => events_in(ls.drop_last()),
        }
    }
}

/// The views of a vector of events.
pub open spec fn event_views(v: Seq<RdpLogEvent>) -> Seq<EventView> {
    Seq::new(v.len(), |i: int| v[i]@)
}

/// The connect and disconnect events in GNOME Remote Desktop's journal
/// (`journalctl -o short-iso` output), in order.
pub fn rdp_journal_events(journal: &str) -> (r: Vec<RdpLogEvent>)
    ensures
        event_views(r@) == events_in(lines_of(journal@)),
        forall|i: int| 0 <= i < r@.len() ==> timed_in_range(#[trigger] r@[i]),
{
    let ls = lines(&chars_of(journal));
    let ghost all = seqs_of(ls@);
    let mut r: Vec<RdpLogEvent> = Vec::new();
    let mut i: usize = 0;
    assert(all.take(0) =~= Seq::<Seq<char>>::empty());
    assert(event_views(r@) =~= Seq::empty());
    while i < ls.len()
        invariant
            i <= ls.len(),
            all == seqs_of(ls@),
            event_views(r@) == events_in(all.take(i as int)),
            forall|j: int| 0 <= j < r@.len() ==> timed_in_range(#[trigger] r@[j]),
        decreases ls.len() - i,
    {
        assert(all.take(i + 1).drop_last() =~= all.take(i as int));
        assert(all.take(i + 1).last() == ls@[i as int]@);
        match parse_rdp_event(&ls[i]) {
            Some(e) => {
                let ghost before = event_views(r@);
                r.push(e);
                assert(event_views(r@) =~= before.push(e@));
            },
            None => {},
        }
        i = i + 1;
    }
    assert(all.take(ls.len() as int) =~= all);
    r
}

/// `a` sorts at or before `b`, comparing characters in order (the order of
/// `String`'s `<=`: byte order of UTF-8, which is code point order).
pub open spec fn text_le(a: Seq<char>, b: Seq<char>) -> bool
    decreases a.len(),
{
    if a.len() == 0 {
        true
    } else if b.len() == 0 {
        false
    } else if (a[0] as u32) < (b[0] as u32) {
        true
    } else if (a[0] as u32) > (b[0] as u32) {
        false
    } else {
        text_le(a.drop_first(), b.drop_first())
    }
}

/// Does `a` sort at or before `b`?
pub fn text_at_most(a: &Vec<char>, b: &Vec<char>) -> (r: bool)
    ensures
        r == text_le(a@, b@),
{
    let mut i: usize = 0;
    assert(a@.skip(0) =~= a@);
    assert(b@.skip(0) =~= b@);
    while i < a.len()
        invariant
            i <= a.len(),
            i <= b.len(),
            text_le(a@, b@) == text_le(a@.skip(i as int), b@.skip(i as int)),
        decreases a.len() - i,
    {
        assert(a@.skip(i as int).drop_first() =~= a@.skip(i + 1));
        if i == b.len() {
            return false;
        }
        assert(b@.skip(i as int).drop_first() =~= b@.skip(i + 1));
        let x = a[i] as u32;
        let y = b[i] as u32;
        if x < y {
            return true;
        }
        if x > y {
            return false;
        }
        i = i + 1;
    }
    true
}

/// Event `i` is a connect from the address of event `e`, no later than it.
pub open spec fn starts_session(ev: Seq<EventView>, i: int, e: int) -> bool {
    ev[i].kind == RdpEventKind::Connected && ev[i].ip == ev[e].ip && text_le(ev[i].timestamp, ev[e].timestamp)
}

/// The last of the first `k` events that starts the session event `e` ends.
pub open spec fn last_start(ev: Seq<EventView>, e: int, k: int) -> Option<int>
    decreases k,
{
    if k <= 0 {
        None
    } else if starts_session(ev, k - 1, e) {
        Some(k - 1)
    } else {
        last_start(ev, e, k - 1)
    }
}

/// The last completed session among the first `k` events: the last
/// disconnect with a matching connect, paired with the last such connect.
pub open spec fn last_session(ev: Seq<EventView>, k: int) -> Option<(int, int)>
    decreases k,
{
    if k <= 0 {
        None
    } else if ev[k - 1].kind == RdpEventKind::Disconnected && last_start(ev, k - 1, ev.len() as int) is Some {
        Some((last_start(ev, k - 1, ev.len() as int)->0, k - 1))
    } else {
        last_session(ev, k - 1)
    }
}

fn find_start(events: &Vec<RdpLogEvent>, e: usize) -> (r: Option<usize>)
    requires
        e < events@.len(),
    ensures
        match r {
            Some(i) => last_start(event_views(events@), e as int, events@.len() as int) == Some(i as int),
            None => last_start(event_views(events@), e as int, events@.len() as int) is None,
        },
{
    let ghost ev = event_views(events@);
    let ip = chars_of(events[e].ip.as_str());
    let ts = chars_of(events[e].timestamp.as_str());
    let mut k: usize = events.len();
    while k > 0
        invariant
            k <= events@.len(),
            e < events@.len(),
            ev == event_views(events@),
            ip@ == ev[e as int].ip,
            ts@ == ev[e as int].timestamp,
            last_start(ev, e as int, events@.len() as int) == last_start(ev, e as int, k as int),
        decreases k,
    {
        let c = &events[k - 1];
        assert(ev[k - 1] == c@);
        if c.kind == RdpEventKind::Connected && crate::detect::is(&ip, c.ip.as_str())
            && text_at_most(&chars_of(c.timestamp.as_str()), &ts) {
            return Some(k - 1);
        }
        k = k - 1;
    }
    None
}

fn search_last_session(events: &Vec<RdpLogEvent>) -> (r: Option<(usize, usize)>)
    ensures
        match r {
            Some((s, e)) => last_session(event_views(events@), events@.len() as int) == Some(
                (s as int, e as int),
            ),
            None => last_session(event_views(events@), events@.len() as int) is None,
        },
{
    let ghost ev = event_views(events@);
    let mut k: usize = events.len();
    while k > 0
        invariant
            k <= events@.len(),
            ev == event_views(events@),
            last_session(ev, events@.len() as int) == last_session(ev, k as int),
        decreases k,
    {
        assert(ev[k - 1] == events@[k - 1]@);
        if events[k - 1].kind == RdpEventKind::Disconnected {
            match find_start(events, k - 1) {
                Some(s) => return Some((s, k - 1)),
                None => {},
            }
        }
        k = k - 1;
    }
    None
}

/// The last completed session in `events`, as the indices of its connect
/// and its disconnect: the latest disconnect that some connect from its
/// address, no later, matches, with the latest such connect; none exactly
/// when no connect and disconnect complete a session.
pub fn last_completed_session(events: &Vec<RdpLogEvent>) -> (r: Option<(usize, usize)>)
    ensures
        match r {
            Some((s, e)) => last_session(event_views(events@), events@.len() as int) == Some(
                (s as int, e as int),
            ),
            None => last_session(event_views(events@), events@.len() as int) is None,
        },
        r is None <==> !exists|s: int, e: int| #[trigger] completes(event_views(events@), s, e),
        r matches Some((s, e)) ==> {
            let ev = event_views(events@);
            &&& completes(ev, s as int, e as int)
            &&& forall|i: int, j: int| e < j && #[trigger] completes(ev, i, j) ==> false
            &&& forall|i: int| s < i ==> !#[trigger] completes(ev, i, e as int)
        },
{
    let r = search_last_session(events);
    proof {
        lemma_last_session_is_latest(event_views(events@));
    }
    r
}

/// The session that `last_session` picks is one: a connect, then a
/// disconnect from the same address, with the connect's timestamp no later;
/// no later disconnect has a matching connect, and no later connect matches.
pub proof fn lemma_last_session_is_complete(ev: Seq<EventView>)
    ensures
        last_session(ev, ev.len() as int) matches Some((s, e)) ==> {
            &&& 0 <= s < ev.len() && 0 <= e < ev.len()
            &&& ev[s].kind == RdpEventKind::Connected
            &&& ev[e].kind == RdpEventKind::Disconnected
            &&& ev[s].ip == ev[e].ip
            &&& text_le(ev[s].timestamp, ev[e].timestamp)
            &&& forall|j: int|
                e < j < ev.len() && ev[j].kind == RdpEventKind::Disconnected ==> #[trigger] last_start(
                    ev,
                    j,
                    ev.len() as int,
                ) is None
            &&& forall|i: int| s < i < ev.len() ==> !#[trigger] starts_session(ev, i, e)
        },
{
    lemma_last_session_parts(ev, ev.len() as int);
}

/// Event `s` is a connect and event `e` a disconnect from the same address,
/// the connect's timestamp no later: together they make a completed session.
pub open spec fn completes(ev: Seq<EventView>, s: int, e: int) -> bool {
    0 <= s < ev.len() && 0 <= e < ev.len() && ev[e].kind == RdpEventKind::Disconnected && starts_session(ev, s, e)
}

/// The last completed session is found exactly when some connect and
/// disconnect complete one; its disconnect is the latest that has a
/// matching connect, and its connect is the latest that matches it.
pub proof fn lemma_last_session_is_latest(ev: Seq<EventView>)
    ensures
        last_session(ev, ev.len() as int) is None <==> !exists|s: int, e: int| #[trigger] completes(ev, s, e),
        last_session(ev, ev.len() as int) matches Some((s, e)) ==> {
            &&& completes(ev, s, e)
            &&& forall|i: int, j: int| e < j && #[trigger] completes(ev, i, j) ==> false
            &&& forall|i: int| s < i ==> !#[trigger] completes(ev, i, e)
        },
{
    let n = ev.len() as int;
    lemma_last_session_is_complete(ev);
    lemma_no_session_below(ev, n);
    match last_session(ev, n) {
        Some((s, e)) => {
            assert(completes(ev, s, e));
            assert forall|i: int, j: int| e < j && #[trigger] completes(ev, i, j) implies false by {
                lemma_no_start_below(ev, j, n);
            }
        },
        None => {},
    }
}

proof fn lemma_no_start_below(ev: Seq<EventView>, e: int, k: int)
    requires
        last_start(ev, e, k) is None,
    ensures
        forall|i: int| 0 <= i < k ==> !#[trigger] starts_session(ev, i, e),
    decreases k,
{
    if k > 0 {
        lemma_no_start_below(ev, e, k - 1);
    }
}

proof fn lemma_no_session_below(ev: Seq<EventView>, k: int)
    requires
        k <= ev.len(),
    ensures
        last_session(ev, k) is None ==> forall|s: int, e: int| e < k && #[trigger] completes(ev, s, e) ==> false,
    decreases k,
{
    if k > 0 {
        lemma_no_session_below(ev, k - 1);
        if last_session(ev, k) is None {
            if ev[k - 1].kind == RdpEventKind::Disconnected {
                lemma_no_start_below(ev, k - 1, ev.len() as int);
            }
        }
    }
}

proof fn lemma_last_start_parts(ev: Seq<EventView>, e: int, k: int)
    requires
        k <= ev.len(),
    ensures
        last_start(ev, e, k) matches Some(s) ==> 0 <= s < k && starts_session(ev, s, e) && forall|i: int|
            s < i < k ==> !#[trigger] starts_session(ev, i, e),
    decreases k,
{
    if k > 0 {
        lemma_last_start_parts(ev, e, k - 1);
    }
}

proof fn lemma_last_session_parts(ev: Seq<EventView>, k: int)
    requires
        k <= ev.len(),
    ensures
        last_session(ev, k) matches Some((s, e)) ==> {
            &&& 0 <= s < ev.len() && 0 <= e < k
            &&& ev[s].kind == RdpEventKind::Connected
            &&& ev[e].kind == RdpEventKind::Disconnected
            &&& ev[s].ip == ev[e].ip
            &&& text_le(ev[s].timestamp, ev[e].timestamp)
            &&& forall|j: int|
                e < j < k && ev[j].kind == RdpEventKind::Disconnected ==> #[trigger] last_start(
                    ev,
                    j,
                    ev.len() as int,
                ) is None
            &&& forall|i: int| s < i < ev.len() ==> !#[trigger] starts_session(ev, i, e)
        },
    decreases k,
{
    if k > 0 {
        lemma_last_session_parts(ev, k - 1);
        lemma_last_start_parts(ev, k - 1, ev.len() as int);
    }
}


/// The client address of an `ss -tn` line: an established connection on port
/// 3389 whose fifth column (the peer) holds an IPv4 address.
pub open spec fn line_client(line: Seq<char>) -> Option<Seq<char>> {
    let cols = words_of(line);
    if has_sub(line, ":3389"@) && cols.len() >= 5 && cols[0] == "ESTAB"@ {
        ipv4_in(cols[4])
    } else {
        None
    }
}

/// The distinct client addresses of the lines `ls`, in order of first appearance.
pub open spec fn clients_in(ls: Seq<Seq<char>>) -> Seq<Seq<char>>
    decreases ls.len(),
{
    if ls.len() == 0 {
        Seq::empty()
    } else {
        let rest = clients_in(ls.drop_last());
        match line_client(ls.last()) {
            Some(ip) => if rest.contains(ip) { rest } else { rest.push(ip) },
            None => rest,
        }
    }
}

/// `ss -tn` output without its header line.
pub open spec fn ss_rows(out: Seq<char>) -> Seq<Seq<char>> {
    let ls = lines_of(out);
    if ls.len() == 0 {
        ls
    } else {
        ls.drop_first()
    }
}

/// The query of the TCP connections established now.
pub fn clients_query() -> (r: Invocation)
    ensures
        runs(r, "ss"@, seq!["-tn"@], RunIn::System),
{
    run1("ss", "-tn", RunIn::System)
}

/// The query of the last 30 days of GNOME Remote Desktop's journal, with
/// ISO timestamps.
pub fn rdp_events_query() -> (r: Invocation)
    ensures
        runs(
            r,
            "journalctl"@,
            seq![
                "--user"@,
                "-u"@,
                "gnome-remote-desktop.service"@,
                "--since"@,
                "-30 days"@,
                "-o"@,
                "short-iso"@,
                "--no-pager"@,
            ],
            RunIn::Session,
        ),
{
    let v = vec!["--user", "-u", "gnome-remote-desktop.service", "--since", "-30 days", "-o", "short-iso", "--no-pager"];
    let r = crate::rdp::run_list("journalctl", v, RunIn::Session);
    assert(crate::rdp::lits(v@) =~= seq![
        "--user"@,
        "-u"@,
        "gnome-remote-desktop.service"@,
        "--since"@,
        "-30 days"@,
        "-o"@,
        "short-iso"@,
        "--no-pager"@,
    ]);
    r
}

/// The addresses of the RDP clients connected now, from `ss -tn` output
/// (`None`: `ss` could not be run).
pub fn current_rdp_clients(ss: &Option<String>) -> (r: Vec<String>)
    ensures
        match ss {
            Some(out) => crate::detect::strs_of(r@) == clients_in(ss_rows(out@)),
            None => r@.len() == 0,
        },
{
    let out = match ss {
        Some(o) => o,
        None => return Vec::new(),
    };
    let ls = lines(&chars_of(out.as_str()));
    let ghost all = seqs_of(ls@);
    let ghost rows = ss_rows(out@);
    let mut r: Vec<String> = Vec::new();
    if ls.len() == 0 {
        assert(crate::detect::strs_of(r@) =~= clients_in(rows));
        return r;
    }
    let mut i: usize = 1;
    assert(rows.take(0) =~= Seq::<Seq<char>>::empty());
    assert(crate::detect::strs_of(r@) =~= Seq::empty());
    while i < ls.len()
        invariant
            1 <= i <= ls.len(),
            all == seqs_of(ls@),
            all == lines_of(out@),
            rows == all.drop_first(),
            crate::detect::strs_of(r@) == clients_in(rows.take(i - 1)),
        decreases ls.len() - i,
    {
        assert(rows.take(i as int).drop_last() =~= rows.take(i - 1));
        assert(rows.take(i as int).last() == ls@[i as int]@);
        let line = &ls[i];
        let cols = words(line);
        if has(line, ":3389") && cols.len() >= 5 && crate::detect::is(&cols[0], "ESTAB") {
            assert(seqs_of(cols@)[0] == cols@[0]@);
            assert(seqs_of(cols@)[4] == cols@[4]@);
            match extract_ipv4(&cols[4]) {
                Some(ip) => {
                    let ips = string_of(&ip);
                    let mut seen = false;
                    let mut j: usize = 0;
                    while j < r.len()
                        invariant
                            j <= r.len(),
                            ips@ == ip@,
                            !seen ==> forall|k: int| 0 <= k < j ==> r@[k]@ != ip@,
                            seen ==> exists|k: int| 0 <= k < r@.len() && r@[k]@ == ip@,
                        decreases r.len() - j,
                    {
                        let same = r[j] == ips;
                        if same {
                            assert(r@[j as int]@ == ip@);
                            seen = true;
                        }
                        j = j + 1;
                    }
                    let ghost before = crate::detect::strs_of(r@);
                    proof {
                        if seen {
                            let k = choose|k: int| 0 <= k < r@.len() && r@[k]@ == ip@;
                            assert(before[k] == ip@);
                        } else {
                            assert forall|k: int| 0 <= k < before.len() implies before[k] != ip@ by {
                                assert(before[k] == r@[k]@);
                            }
                        }
                    }
                    if !seen {
                        r.push(ips);
                        assert(crate::detect::strs_of(r@) =~= before.push(ip@));
                    }
                },
                None => {},
            }
        } else {
            proof {
                if cols@.len() >= 5 {
                    assert(seqs_of(cols@)[0] == cols@[0]@);
                }
            }
        }
        i = i + 1;
    }
    assert(rows.take(ls.len() - 1) =~= rows);
    r
}

/// The client list has no address twice.
pub proof fn lemma_clients_distinct(ls: Seq<Seq<char>>)
    ensures
        clients_in(ls).no_duplicates(),
    decreases ls.len(),
{
    if ls.len() > 0 {
        lemma_clients_distinct(ls.drop_last());
    }
}

/// How long the last session stayed, when both ends have times in seconds and
/// the disconnect is not before the connect.
pub open spec fn duration_of(start: Option<i64>, end: Option<i64>) -> Seq<char> {
    match (start, end) {
        (Some(a), Some(b)) => if b >= a { duration_text(b - a) } else { "duration unknown"@ },
        _ => "duration unknown"@,
    }
}

/// The text for how long a session stayed.
pub fn session_duration(start: Option<i64>, end: Option<i64>) -> (r: String)
    requires
        start matches Some(a) ==> epoch_in_range(a),
        end matches Some(b) ==> epoch_in_range(b),
    ensures
        r@ == duration_of(start, end),
{
    match (start, end) {
        (Some(a), Some(b)) => if b >= a {
            format_duration(b - a)
        } else {
            "duration unknown".to_owned()
        },
        _ => "duration unknown".to_owned(),
    }
}


/// What the history says of the last completed session.
#[derive(Debug, Clone)]
pub enum LastSession {
    /// The client's address, when it connected, and how long it stayed.
    Completed { ip: String, timestamp: String, duration: String },
    /// Events were logged but no disconnect matches a connect.
    NotEnoughData,
}

/// The connection history shown by `status`.
#[derive(Debug, Clone)]
pub struct HistoryReport {
    /// The clients connected now.
    pub current: Vec<String>,
    /// The latest event: its verb, address and timestamp.
    pub last_event: Option<(&'static str, String, String)>,
    pub last_session: LastSession,
}

/// The connection history: nothing when no client is connected and no event
/// was logged; else the current clients, the latest event, and the last
/// completed session with its duration (or that there is not enough data).
pub fn connection_history(current: Vec<String>, events: &Vec<RdpLogEvent>) -> (r: Option<HistoryReport>)
    requires
        forall|i: int| 0 <= i < events@.len() ==> timed_in_range(#[trigger] events@[i]),
    ensures
        current@.len() == 0 && events@.len() == 0 <==> r is None,
        r matches Some(h) ==> {
            let ev = event_views(events@);
            &&& h.current == current
            &&& events@.len() == 0 ==> h.last_event is None
            &&& events@.len() > 0 ==> (h.last_event matches Some((verb, ip, ts)) && ip@ == ev.last().ip
                && ts@ == ev.last().timestamp && verb@ == (if ev.last().kind == RdpEventKind::Connected {
                "connected"@
            } else {
                "disconnected"@
            }))
            &&& match last_session(ev, ev.len() as int) {
                Some((s, e)) => h.last_session matches LastSession::Completed { ip, timestamp, duration }
                    && ip@ == ev[s].ip && timestamp@ == ev[s].timestamp && duration@ == duration_of(
                    events@[s].epoch,
                    events@[e].epoch,
                ),
                None => h.last_session is NotEnoughData,
            }
        },
{
    if current.len() == 0 && events.len() == 0 {
        return None;
    }
    let last_event = if events.len() > 0 {
        let e = &events[events.len() - 1];
        assert(event_views(events@).last() == e@);
        Some((e.kind.action(), e.ip.as_str().to_owned(), e.timestamp.as_str().to_owned()))
    } else {
        None
    };
    let last_session = match last_completed_session(events) {
        Some((s, e)) => {
            proof {
                lemma_last_session_is_complete(event_views(events@));
            }
            let start = &events[s];
            let end = &events[e];
            assert(event_views(events@)[s as int] == start@);
            LastSession::Completed {
                ip: start.ip.as_str().to_owned(),
                timestamp: start.timestamp.as_str().to_owned(),
                duration: session_duration(start.epoch, end.epoch),
            }
        },
        None => LastSession::NotEnoughData,
    };
    Some(HistoryReport { current, last_event, last_session })
}

} // verus!
